use vstd::prelude::*;

verus! {

/// Which of the two channel shapes a [`Pipe`] has.
#[derive(Clone, Copy, Debug, PartialEq, Eq, Structural)]
pub enum ChannelKind {
    /// Reads consume the buffer from the front, in the order it was written.
    Fifo,
    /// Output is only inspected by the host; every read is refused.
    Capturing,
}

/// What a channel refuses to do.
#[derive(Clone, Copy, Debug, PartialEq, Eq, Structural)]
pub enum ChannelError {
    /// A channel is a stream: it has no position to move.
    NotSeekable,
    /// A capturing channel cannot be read from.
    ReadRejected,
}

/// A host-owned byte buffer that stands in for one of a guest's stdio streams.
///
/// Writes never block and always append; the buffer holds exactly the bytes
/// written since the last `clear` (less whatever a FIFO read consumed).
#[derive(Debug)]
pub struct Pipe {
    pub buffer: Vec<u8>,
    pub kind: ChannelKind,
}

impl Pipe {
    /// An empty FIFO channel.
    pub fn new() -> (r: Self)
        ensures
            r.buffer@ == Seq::<u8>::empty(),
            r.kind == ChannelKind::Fifo,
    {
        Pipe { buffer: Vec::new(), kind: ChannelKind::Fifo }
    }

    /// An empty capturing channel.
    pub fn capturing() -> (r: Self)
        ensures
            r.buffer@ == Seq::<u8>::empty(),
            r.kind == ChannelKind::Capturing,
    {
        Pipe { buffer: Vec::new(), kind: ChannelKind::Capturing }
    }

    /// Drops everything that was written since the last clear.
    pub fn clear(&mut self)
        ensures
            final(self).buffer@ == Seq::<u8>::empty(),
            final(self).buffer@.len() == 0,
            final(self).kind == old(self).kind,
    {
        self.buffer.clear();
    }

    /// Number of bytes held.
    pub fn size(&self) -> (r: u64)
        ensures
            r == self.buffer@.len(),
    {
        self.buffer.len() as u64
    }

    /// Number of bytes a read could hand out now.
    pub fn bytes_available(&self) -> (r: usize)
        ensures
            r == self.buffer@.len(),
    {
        self.buffer.len()
    }

    /// Cuts the buffer to `len` bytes, or pads it with zero bytes up to `len`.
    pub fn set_len(&mut self, len: usize)
        ensures
            final(self).kind == old(self).kind,
            final(self).buffer@.len() == len,
            len <= old(self).buffer@.len() ==> final(self).buffer@ == old(self).buffer@.subrange(
                0,
                len as int,
            ),
            len > old(self).buffer@.len() ==> final(self).buffer@ == old(self).buffer@ + Seq::new(
                (len - old(self).buffer@.len()) as nat,
                |i: int| 0u8,
            ),
    {
        if len <= self.buffer.len() {
            self.buffer.truncate(len);
        } else {
            let ghost start = self.buffer@;
            while self.buffer.len() < len
                invariant
                    start.len() <= self.buffer@.len() <= len,
                    self.kind == old(self).kind,
                    self.buffer@ == start + Seq::new(
                        (self.buffer@.len() - start.len()) as nat,
                        |i: int| 0u8,
                    ),
                decreases len - self.buffer@.len(),
            {
                self.buffer.push(0u8);
                assert(self.buffer@ =~= start + Seq::new(
                    (self.buffer@.len() - start.len()) as nat,
                    |i: int| 0u8,
                ));
            }
        }
    }

    /// Appends `bytes`; never blocks and always accepts all of them.
    pub fn write(&mut self, bytes: &[u8]) -> (r: usize)
        requires
            old(self).buffer@.len() + bytes@.len() <= usize::MAX,
        ensures
            final(self).buffer@ == old(self).buffer@ + bytes@,
            final(self).kind == old(self).kind,
            r == bytes@.len(),
    {
        let ghost start = self.buffer@;
        let mut i: usize = 0;
        while i < bytes.len()
            invariant
                i <= bytes@.len(),
                self.buffer@ == start + bytes@.subrange(0, i as int),
                self.kind == old(self).kind,
            decreases bytes@.len() - i,
        {
            self.buffer.push(bytes[i]);
            i = i + 1;
            assert(self.buffer@ =~= start + bytes@.subrange(0, i as int));
        }
        assert(bytes@.subrange(0, i as int) =~= bytes@);
        i
    }

    /// Takes up to `max` bytes from the front of a FIFO channel.
    ///
    /// A capturing channel refuses every read and stays as it was.
    pub fn read(&mut self, max: usize) -> (r: Result<Vec<u8>, ChannelError>)
        ensures
            old(self).kind == ChannelKind::Capturing ==> {
                &&& r == Err::<Vec<u8>, ChannelError>(ChannelError::ReadRejected)
                &&& final(self).buffer@ == old(self).buffer@
            },
            old(self).kind == ChannelKind::Fifo ==> r is Ok,
            r matches Ok(taken) ==> {
                let n = if max < old(self).buffer@.len() {
                    max as int
                } else {
                    old(self).buffer@.len() as int
                };
                &&& taken@ == old(self).buffer@.subrange(0, n)
                &&& final(self).buffer@ == old(self).buffer@.subrange(n, old(self).buffer@.len() as int)
            },
            final(self).kind == old(self).kind,
    {
        match self.kind {
            ChannelKind::Capturing => Err(ChannelError::ReadRejected),
            ChannelKind::Fifo => {
                let n = if max < self.buffer.len() {
                    max
                } else {
                    self.buffer.len()
                };
                let mut rest = self.buffer.split_off(n);
                std::mem::swap(&mut self.buffer, &mut rest);
                Ok(rest)
            },
        }
    }

    /// Channels have no position: seeking always fails.
    pub fn seek(&self) -> (r: Result<u64, ChannelError>)
        ensures
            r == Err::<u64, ChannelError>(ChannelError::NotSeekable),
    {
        Err(ChannelError::NotSeekable)
    }
}

} // verus!
