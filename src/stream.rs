//! The buffers of the byte-framed duplex stream: what was read and not yet
//! handed up, and what waits to be written.
use vstd::prelude::*;

verus! {

/// How much the read buffer grows by before each read.
pub const READ_RESERVATION: usize = 4096;

#[derive(Clone, Copy, Debug, PartialEq, Eq, Structural)]
pub enum StreamError {
    ReadBufferFull,
    WriteBufferFull,
    InvalidWrite,
    ReadFailed,
    WriteFailed,
}

/// What one read gives.
#[derive(Debug)]
pub enum ReadOutcome {
    /// The peer closed its side.
    EndOfStream,
    /// Everything read since the last hand-over.
    Data(Vec<u8>),
}

/// The largest size either buffer may reach.
pub open spec fn buffer_limit() -> int {
    usize::MAX - READ_RESERVATION
}

pub struct ReadBuffer {
    buf: Vec<u8>,
}

impl ReadBuffer {
    pub closed spec fn contents(&self) -> Seq<u8> {
        self.buf@
    }

    pub fn new() -> (r: ReadBuffer)
        ensures
            r.contents().len() == 0,
    {
        ReadBuffer { buf: Vec::new() }
    }

    /// Whether another reservation fits.
    pub fn reserve(&self) -> (r: Result<(), StreamError>)
        ensures
            r is Ok <==> self.contents().len() + READ_RESERVATION <= buffer_limit(),
            r is Err ==> r == Err::<(), StreamError>(StreamError::ReadBufferFull),
    {
        if self.buf.len() <= usize::MAX - READ_RESERVATION - READ_RESERVATION {
            Ok(())
        } else {
            Err(StreamError::ReadBufferFull)
        }
    }

    /// Takes the bytes of one read: none means the end of the stream; some
    /// are added to the buffer, which is handed up whole and reset.
    pub fn on_read(&mut self, chunk: &[u8]) -> (r: Result<ReadOutcome, StreamError>)
        ensures
            chunk@.len() == 0 ==> (r matches Ok(ReadOutcome::EndOfStream)) && final(self).contents()
                == old(self).contents(),
            chunk@.len() > 0 && old(self).contents().len() + chunk@.len() > buffer_limit() ==> (r
                matches Err(StreamError::ReadBufferFull)) && final(self).contents() == old(self).contents(),
            chunk@.len() > 0 && old(self).contents().len() + chunk@.len() <= buffer_limit() ==> (r
                matches Ok(ReadOutcome::Data(d)) && d@ == old(self).contents() + chunk@)
                && final(self).contents().len() == 0,
    {
        if chunk.len() == 0 {
            return Ok(ReadOutcome::EndOfStream);
        }
        if chunk.len() > usize::MAX - READ_RESERVATION || self.buf.len() > usize::MAX - READ_RESERVATION - chunk.len() {
            return Err(StreamError::ReadBufferFull);
        }
        let ghost before = self.buf@;
        let mut i: usize = 0;
        while i < chunk.len()
            invariant
                i <= chunk@.len(),
                self.buf@ == before + chunk@.take(i as int),
            decreases chunk@.len() - i,
        {
            self.buf.push(chunk[i]);
            assert(chunk@.take(i as int + 1) =~= chunk@.take(i as int).push(chunk@[i as int]));
            i = i + 1;
        }
        assert(chunk@.take(chunk@.len() as int) =~= chunk@);
        let mut data: Vec<u8> = Vec::new();
        std::mem::swap(&mut data, &mut self.buf);
        Ok(ReadOutcome::Data(data))
    }
}

pub struct WriteBuffer {
    buf: Vec<u8>,
}

impl WriteBuffer {
    pub closed spec fn contents(&self) -> Seq<u8> {
        self.buf@
    }

    pub fn new() -> (r: WriteBuffer)
        ensures
            r.contents().len() == 0,
    {
        WriteBuffer { buf: Vec::new() }
    }

    /// The bytes that wait to be written.
    pub fn pending(&self) -> (r: &[u8])
        ensures
            r@ == self.contents(),
    {
        self.buf.as_slice()
    }

    /// Appends outbound bytes, unless the buffer would pass its limit.
    pub fn enqueue(&mut self, bytes: &[u8]) -> (r: Result<(), StreamError>)
        ensures
            old(self).contents().len() + bytes@.len() <= buffer_limit() ==> r is Ok && final(self).contents()
                == old(self).contents() + bytes@,
            old(self).contents().len() + bytes@.len() > buffer_limit() ==> r == Err::<(), StreamError>(
                StreamError::WriteBufferFull,
            ) && final(self).contents() == old(self).contents(),
    {
        if self.buf.len() > usize::MAX - READ_RESERVATION || bytes.len() > usize::MAX - READ_RESERVATION - self.buf.len() {
            return Err(StreamError::WriteBufferFull);
        }
        let ghost before = self.buf@;
        let mut i: usize = 0;
        while i < bytes.len()
            invariant
                i <= bytes@.len(),
                self.buf@ == before + bytes@.take(i as int),
            decreases bytes@.len() - i,
        {
            self.buf.push(bytes[i]);
            assert(bytes@.take(i as int + 1) =~= bytes@.take(i as int).push(bytes@[i as int]));
            i = i + 1;
        }
        assert(bytes@.take(bytes@.len() as int) =~= bytes@);
        Ok(())
    }

    /// Drops the first `n` pending bytes, which the transport took. A
    /// transport that takes nothing while bytes wait is an invalid write.
    pub fn written(&mut self, n: usize) -> (r: Result<(), StreamError>)
        requires
            n <= old(self).contents().len(),
        ensures
            n == 0 && old(self).contents().len() > 0 ==> r == Err::<(), StreamError>(StreamError::InvalidWrite)
                && final(self).contents() == old(self).contents(),
            !(n == 0 && old(self).contents().len() > 0) ==> r is Ok && final(self).contents()
                == old(self).contents().skip(n as int),
    {
        if n == 0 && self.buf.len() > 0 {
            return Err(StreamError::InvalidWrite);
        }
        let mut rest: Vec<u8> = Vec::new();
        let mut i: usize = n;
        while i < self.buf.len()
            invariant
                n <= i <= self.buf@.len(),
                rest@ == self.buf@.subrange(n as int, i as int),
            decreases self.buf@.len() - i,
        {
            rest.push(self.buf[i]);
            assert(self.buf@.subrange(n as int, i as int + 1) =~= self.buf@.subrange(n as int, i as int).push(self.buf@[i as int]));
            i = i + 1;
        }
        assert(self.buf@.subrange(n as int, self.buf@.len() as int) =~= self.buf@.skip(n as int));
        self.buf = rest;
        Ok(())
    }
}

} // verus!
