use vstd::prelude::*;
use vstd::utf8::{decode_utf8, valid_utf8};

verus! {

/// Errors of an access to guest memory.
#[derive(Clone, Copy, Debug, PartialEq, Eq, Structural)]
pub enum MemoryError {
    /// The range ends past the current size of the memory.
    OutOfBounds,
    /// `ptr + len` does not fit in 32 bits.
    Overflow,
    /// The bytes of the range are not valid UTF-8.
    InvalidEncoding,
}

/// The largest address a 32-bit guest can form.
pub open spec fn addr_limit() -> int {
    u32::MAX as int
}

/// The outcome of checking the range `[ptr, ptr + len)` against a memory of `size` bytes.
pub open spec fn check_range(size: nat, ptr: u32, len: nat) -> Result<(), MemoryError> {
    if ptr + len > addr_limit() {
        Err(MemoryError::Overflow)
    } else if ptr + len > size {
        Err(MemoryError::OutOfBounds)
    } else {
        Ok(())
    }
}

/// What a read of `[ptr, ptr + len)` gives on memory `mem`.
pub open spec fn read_spec(mem: Seq<u8>, ptr: u32, len: u32) -> Result<Seq<u8>, MemoryError> {
    match check_range(mem.len(), ptr, len as nat) {
        Ok(_) => Ok(mem.subrange(ptr as int, ptr + len)),
        Err(e) => Err(e),
    }
}

/// `mem` with the bytes from `ptr` on replaced by `bytes`.
pub open spec fn overwrite(mem: Seq<u8>, ptr: int, bytes: Seq<u8>) -> Seq<u8> {
    mem.subrange(0, ptr) + bytes + mem.subrange(ptr + bytes.len(), mem.len() as int)
}

/// What a write of `bytes` at `ptr` leaves in memory `mem`, or why it is refused.
pub open spec fn write_spec(mem: Seq<u8>, ptr: u32, bytes: Seq<u8>) -> Result<Seq<u8>, MemoryError> {
    match check_range(mem.len(), ptr, bytes.len()) {
        Ok(_) => Ok(overwrite(mem, ptr as int, bytes)),
        Err(e) => Err(e),
    }
}

/// What reading `[ptr, ptr + len)` as text gives on memory `mem`.
pub open spec fn read_text_spec(mem: Seq<u8>, ptr: u32, len: u32) -> Result<Seq<char>, MemoryError> {
    match read_spec(mem, ptr, len) {
        Ok(b) => if valid_utf8(b) {
            Ok(decode_utf8(b))
        } else {
            Err(MemoryError::InvalidEncoding)
        },
        Err(e) => Err(e),
    }
}

/// Reading a range that lies inside memory and writing the same bytes back
/// leaves memory as it was.
pub proof fn lemma_read_write_back(mem: Seq<u8>, ptr: u32, len: u32)
    requires
        ptr + len <= mem.len(),
        ptr + len <= addr_limit(),
    ensures
        read_spec(mem, ptr, len) is Ok,
        write_spec(mem, ptr, read_spec(mem, ptr, len)->Ok_0) == Ok::<Seq<u8>, MemoryError>(mem),
{
    let b = mem.subrange(ptr as int, ptr + len);
    assert(overwrite(mem, ptr as int, b) =~= mem);
}

/// A range that ends past the memory, but within 32-bit addresses, is refused
/// as out of bounds by both read and write, whatever bytes a write carries.
pub proof fn lemma_past_end_refused(mem: Seq<u8>, ptr: u32, len: u32, bytes: Seq<u8>)
    requires
        ptr + len > mem.len(),
        ptr + len <= addr_limit(),
        bytes.len() == len,
    ensures
        read_spec(mem, ptr, len) == Err::<Seq<u8>, MemoryError>(MemoryError::OutOfBounds),
        write_spec(mem, ptr, bytes) == Err::<Seq<u8>, MemoryError>(MemoryError::OutOfBounds),
{
}

/// Relies on std::str::from_utf8: it accepts exactly the valid UTF-8 byte
/// sequences, and the text it gives holds the characters they encode.
#[verifier::external_body]
fn utf8_text(bytes: &[u8]) -> (r: Option<String>)
    ensures
        r is Some <==> valid_utf8(bytes@),
        r matches Some(s) ==> s@ == decode_utf8(bytes@),
{
    match std::str::from_utf8(bytes) {
        Ok(s) => Some(s.to_string()),
        Err(_) => None,
    }
}

/// A bounds-checked window onto the linear memory of one guest instance.
pub struct GuestMemory {
    bytes: Vec<u8>,
}

impl View for GuestMemory {
    type V = Seq<u8>;

    closed spec fn view(&self) -> Seq<u8> {
        self.bytes@
    }
}

impl GuestMemory {
    /// A memory holding `bytes`.
    pub fn new(bytes: Vec<u8>) -> (r: GuestMemory)
        ensures
            r@ == bytes@,
    {
        GuestMemory { bytes }
    }

    /// A memory of `size` zero bytes.
    pub fn zeroed(size: usize) -> (r: GuestMemory)
        ensures
            r@ == Seq::new(size as nat, |_i: int| 0u8),
    {
        let mut bytes: Vec<u8> = Vec::new();
        let mut i: usize = 0;
        while i < size
            invariant
                i <= size,
                bytes@ == Seq::new(i as nat, |_j: int| 0u8),
            decreases size - i,
        {
            bytes.push(0u8);
            i = i + 1;
            assert(bytes@ =~= Seq::new(i as nat, |_j: int| 0u8));
        }
        GuestMemory { bytes }
    }

    /// The current size of the memory in bytes.
    pub fn size(&self) -> (r: usize)
        ensures
            r == self@.len(),
    {
        self.bytes.len()
    }

    /// A copy of the whole memory.
    pub fn contents(&self) -> (r: Vec<u8>)
        ensures
            r@ == self@,
    {
        self.bytes.clone()
    }

    /// Checks `[ptr, ptr + len)` against the current size.
    fn check(&self, ptr: u32, len: usize) -> (r: Result<(), MemoryError>)
        ensures
            r == check_range(self@.len(), ptr, len as nat),
    {
        if len as u64 > u32::MAX as u64 - ptr as u64 {
            Err(MemoryError::Overflow)
        } else if ptr as usize > self.bytes.len() || len > self.bytes.len() - ptr as usize {
            Err(MemoryError::OutOfBounds)
        } else {
            Ok(())
        }
    }

    /// An owned copy of the bytes `[ptr, ptr + len)`.
    pub fn read(&self, ptr: u32, len: u32) -> (r: Result<Vec<u8>, MemoryError>)
        ensures
            r matches Ok(v) ==> read_spec(self@, ptr, len) == Ok::<Seq<u8>, MemoryError>(v@),
            r matches Err(e) ==> read_spec(self@, ptr, len) == Err::<Seq<u8>, MemoryError>(e),
    {
        match self.check(ptr, len as usize) {
            Err(e) => Err(e),
            Ok(()) => {
                let start = ptr as usize;
                let end = start + len as usize;
                let mut out: Vec<u8> = Vec::new();
                let mut i: usize = start;
                while i < end
                    invariant
                        start <= i <= end,
                        end <= self@.len(),
                        out@ == self@.subrange(start as int, i as int),
                    decreases end - i,
                {
                    out.push(self.bytes[i]);
                    i = i + 1;
                    assert(out@ =~= self@.subrange(start as int, i as int));
                }
                Ok(out)
            },
        }
    }

    /// Writes `bytes` at `ptr`; on failure the memory is left as it was.
    pub fn write(&mut self, ptr: u32, bytes: &[u8]) -> (r: Result<(), MemoryError>)
        ensures
            r matches Ok(_) ==> write_spec(old(self)@, ptr, bytes@) == Ok::<Seq<u8>, MemoryError>(
                final(self)@,
            ),
            r matches Err(e) ==> write_spec(old(self)@, ptr, bytes@) == Err::<Seq<u8>, MemoryError>(
                e,
            ),
            r is Err ==> final(self)@ == old(self)@,
    {
        match self.check(ptr, bytes.len()) {
            Err(e) => Err(e),
            Ok(()) => {
                let start = ptr as usize;
                let n = bytes.len();
                let total = self.bytes.len();
                let mut i: usize = 0;
                while i < n
                    invariant
                        i <= n,
                        start == ptr,
                        n == bytes@.len(),
                        start + n <= total,
                        total == old(self)@.len(),
                        self@.len() == old(self)@.len(),
                        self@ == overwrite(old(self)@, start as int, bytes@.subrange(0, i as int)),
                    decreases n - i,
                {
                    self.bytes.set(start + i, bytes[i]);
                    i = i + 1;
                    assert(self@ =~= overwrite(
                        old(self)@,
                        start as int,
                        bytes@.subrange(0, i as int),
                    ));
                }
                assert(bytes@.subrange(0, n as int) =~= bytes@);
                Ok(())
            },
        }
    }

    /// The bytes `[ptr, ptr + len)` decoded as UTF-8 text.
    pub fn read_str(&self, ptr: u32, len: u32) -> (r: Result<String, MemoryError>)
        ensures
            r matches Ok(s) ==> read_text_spec(self@, ptr, len) == Ok::<Seq<char>, MemoryError>(
                s@,
            ),
            r matches Err(e) ==> read_text_spec(self@, ptr, len) == Err::<Seq<char>, MemoryError>(
                e,
            ),
    {
        match self.read(ptr, len) {
            Err(e) => Err(e),
            Ok(b) => match utf8_text(b.as_slice()) {
                Some(s) => Ok(s),
                None => Err(MemoryError::InvalidEncoding),
            },
        }
    }
}

} // verus!
