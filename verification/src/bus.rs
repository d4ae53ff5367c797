//! The write-only bus the controller hangs on, and the transport that
//! addresses the controller over it.

use vstd::prelude::*;

verus! {

/// One write handed to the bus: where it went, what it carried and how the
/// bus answered.
pub struct Transaction<E> {
    pub address: u8,
    pub bytes: Seq<u8>,
    pub result: Result<(), E>,
}

/// A blocking, write-only I2C bus, supplied by the host platform.
///
/// Nothing is known of how a bus answers a write: whatever it returns is
/// handed on as it is.
pub trait I2CWrite {
    /// What the bus reports when a write fails.
    type Error;

    /// Writes `bytes` to the device at `address` in a single transaction.
    fn write(&mut self, address: u8, bytes: &[u8]) -> Result<(), Self::Error>;
}

/// A bus together with the address of the controller on it.
///
/// The transport keeps a ghost record of its traffic. `send` alone extends
/// the record, by the arguments of the one write that it makes and the
/// answer that comes back, so what is proved of the record is proved of
/// the calls made on the bus.
pub struct Transport<I2C: I2CWrite> {
    i2c: I2C,
    slave_address: u8,
    sent: Ghost<Seq<Transaction<I2C::Error>>>,
}

impl<I2C: I2CWrite> Transport<I2C> {
    /// The bus underneath.
    pub closed spec fn bus(&self) -> I2C {
        self.i2c
    }

    /// The address that every write goes to.
    pub closed spec fn address(&self) -> u8 {
        self.slave_address
    }

    /// Every write made through this transport so far, oldest first.
    pub closed spec fn sent(&self) -> Seq<Transaction<I2C::Error>> {
        self.sent@
    }

    /// A transport over `i2c` for the controller at `slave_address`, with
    /// no traffic yet.
    pub fn new(i2c: I2C, slave_address: u8) -> (transport: Self)
        ensures
            transport.bus() == i2c,
            transport.address() == slave_address,
            transport.sent() == Seq::<Transaction<I2C::Error>>::empty(),
    {
        Transport { i2c, slave_address, sent: Ghost(Seq::empty()) }
    }

    /// Writes `bytes` to the controller in one transaction and hands the
    /// answer of the bus back as it is.
    pub fn send(&mut self, bytes: &[u8]) -> (result: Result<(), I2C::Error>)
        ensures
            final(self).sent() == old(self).sent().push(
                (Transaction { address: old(self).address(), bytes: bytes@, result }),
            ),
            final(self).address() == old(self).address(),
    {
        let result = self.i2c.write(self.slave_address, bytes);
        self.sent = Ghost(
            self.sent@.push(Transaction { address: self.slave_address, bytes: bytes@, result }),
        );
        result
    }

    /// Gives the bus back.
    pub fn release(self) -> (i2c: I2C)
        ensures
            i2c == self.bus(),
    {
        self.i2c
    }
}

/// `after` continues `before` with one transaction to `address` for each of
/// `frames`, in order, and nothing else.
pub open spec fn sends<E>(
    before: Seq<Transaction<E>>,
    after: Seq<Transaction<E>>,
    address: u8,
    frames: Seq<Seq<u8>>,
) -> bool {
    &&& after.len() == before.len() + frames.len()
    &&& after.take(before.len() as int) =~= before
    &&& forall|i: int|
        before.len() <= i < after.len() ==> {
            &&& (#[trigger] after[i]).address == address
            &&& after[i].bytes == frames[i - before.len()]
        }
}

/// One more transaction to `address` continues a run of frames by the frame
/// it carries.
pub proof fn lemma_sends_push<E>(
    before: Seq<Transaction<E>>,
    after: Seq<Transaction<E>>,
    address: u8,
    frames: Seq<Seq<u8>>,
    next: Transaction<E>,
)
    requires
        sends(before, after, address, frames),
        next.address == address,
    ensures
        sends(before, after.push(next), address, frames.push(next.bytes)),
{
    let grown = after.push(next);
    assert(grown.take(before.len() as int) =~= after.take(before.len() as int));
    assert forall|i: int| before.len() <= i < grown.len() implies {
        &&& (#[trigger] grown[i]).address == address
        &&& grown[i].bytes == frames.push(next.bytes)[i - before.len()]
    } by {
        if i < after.len() {
            assert(grown[i] == after[i]);
        }
    }
}

/// The answer of the latest failed transaction in `log`, or `Ok` if none
/// of them failed.
pub open spec fn last_error<E>(log: Seq<Transaction<E>>) -> Result<(), E>
    decreases log.len(),
{
    if log.len() == 0 {
        Ok(())
    } else if log.last().result is Err {
        log.last().result
    } else {
        last_error(log.drop_last())
    }
}

/// After one more transaction the latest failure is that transaction's, if
/// it failed, and the one before it if not.
pub proof fn lemma_last_error_push<E>(log: Seq<Transaction<E>>, next: Transaction<E>)
    ensures
        last_error(log.push(next)) == if next.result is Err {
            next.result
        } else {
            last_error(log)
        },
{
    assert(log.push(next).drop_last() =~= log);
}

} // verus!
