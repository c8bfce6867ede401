//! A cursor over a byte buffer that hands out the little-endian integers,
//! byte runs and short texts of which an archive is made.

use crate::bytes::{latin1, le_signed, le_value, radix};
use crate::error::unexpected_eof;
use vstd::prelude::*;

verus! {

/// `String::push` appends the character to the end of the string.
pub assume_specification[ String::push ](text: &mut String, ch: char)
    ensures
        final(text)@ == old(text)@.push(ch),
;

/// A byte buffer with a read position. Every read either succeeds, and moves
/// the position past what it read, or finds too few bytes left, fails with an
/// I/O error and leaves the position where it was.
pub struct BinaryReader {
    data: Vec<u8>,
    position: usize,
}

impl BinaryReader {
    #[verifier::type_invariant]
    spec fn position_in_bounds(&self) -> bool {
        self.position <= self.data.len()
    }

    /// The whole buffer, read or unread.
    pub closed spec fn bytes(&self) -> Seq<u8> {
        self.data@
    }

    /// The index in `bytes()` of the next byte to be read.
    pub closed spec fn spec_position(&self) -> usize {
        self.position
    }

    /// How many bytes are left to read.
    pub open spec fn remaining(&self) -> int {
        self.bytes().len() - self.position()
    }

    /// What any read of `width` bytes does to the reader, `self` being the
    /// reader before it and `after` the reader after it: the read is `done`
    /// exactly where `width` bytes were left, and the position then moves
    /// past them; else nothing moves.
    pub open spec fn read_moves(&self, after: &BinaryReader, width: int, done: bool) -> bool {
        &&& after.bytes() == self.bytes()
        &&& done <==> self.remaining() >= width
        &&& after.position() == self.position() + (if done {
            width
        } else {
            0
        })
    }

    /// A reader at the start of `data`.
    pub fn new(data: Vec<u8>) -> (reader: Self)
        ensures
            reader.bytes() == data@,
            reader.position() == 0,
    {
        BinaryReader { data, position: 0 }
    }

    /// The index of the next byte to be read.
    #[verifier::when_used_as_spec(spec_position)]
    pub fn position(&self) -> (position: usize)
        ensures
            position == self.position(),
            position <= self.bytes().len(),
    {
        proof {
            use_type_invariant(self);
        }
        self.position
    }

    /// How many bytes are left to read.
    pub fn remaining_len(&self) -> (left: usize)
        ensures
            left == self.remaining(),
    {
        proof {
            use_type_invariant(self);
        }
        self.data.len() - self.position
    }

    /// Claims the next `width` bytes: the index of the first of them, or
    /// `None` where fewer are left.
    fn take(&mut self, width: usize) -> (start: Option<usize>)
        ensures
            final(self).data == old(self).data,
            old(self).position <= old(self).data.len(),
            match start {
                Some(at) => {
                    &&& at == old(self).position
                    &&& at + width <= old(self).data.len()
                    &&& final(self).position == at + width
                },
                None => {
                    &&& old(self).data.len() - old(self).position < width
                    &&& final(self).position == old(self).position
                },
            },
    {
        proof {
            use_type_invariant(&*self);
        }
        if width <= self.data.len() - self.position {
            let at = self.position;
            self.position = at + width;
            Some(at)
        } else {
            None
        }
    }

    /// Reads one byte.
    pub fn read_u8(&mut self) -> (result: Result<u8, std::io::Error>)
        ensures
            old(self).read_moves(final(self), 1, result is Ok),
            result matches Ok(value) ==> value == old(self).bytes()[old(self).position() as int],
    {
        match self.take(1) {
            Some(at) => Ok(self.data[at]),
            None => Err(unexpected_eof()),
        }
    }

    /// Reads an unsigned number of 2 bytes, lowest byte first.
    pub fn read_u16(&mut self) -> (result: Result<u16, std::io::Error>)
        ensures
            old(self).read_moves(final(self), 2, result is Ok),
            result matches Ok(value) ==> value == le_value(old(self).bytes(), old(self).position() as int, 2),
    {
        match self.take(2) {
            Some(at) => {
                proof {
                    reveal_with_fuel(le_value, 3);
                }
                Ok(self.data[at] as u16 + 0x100 * (self.data[at + 1] as u16))
            },
            None => Err(unexpected_eof()),
        }
    }

    /// Reads an unsigned number of 4 bytes, lowest byte first.
    pub fn read_u32(&mut self) -> (result: Result<u32, std::io::Error>)
        ensures
            old(self).read_moves(final(self), 4, result is Ok),
            result matches Ok(value) ==> value == le_value(old(self).bytes(), old(self).position() as int, 4),
    {
        match self.take(4) {
            Some(at) => {
                proof {
                    reveal_with_fuel(le_value, 5);
                }
                Ok(
                    self.data[at] as u32 + 0x100 * (self.data[at + 1] as u32) + 0x1_0000 * (
                    self.data[at + 2] as u32) + 0x100_0000 * (self.data[at + 3] as u32),
                )
            },
            None => Err(unexpected_eof()),
        }
    }

    /// Reads an unsigned number of 8 bytes, lowest byte first.
    pub fn read_u64(&mut self) -> (result: Result<u64, std::io::Error>)
        ensures
            old(self).read_moves(final(self), 8, result is Ok),
            result matches Ok(value) ==> value == le_value(old(self).bytes(), old(self).position() as int, 8),
    {
        match self.take(8) {
            Some(at) => {
                proof {
                    reveal_with_fuel(le_value, 9);
                }
                let low: u64 = self.data[at] as u64 + 0x100 * (self.data[at + 1] as u64) + 0x1_0000
                    * (self.data[at + 2] as u64) + 0x100_0000 * (self.data[at + 3] as u64);
                let high: u64 = self.data[at + 4] as u64 + 0x100 * (self.data[at + 5] as u64)
                    + 0x1_0000 * (self.data[at + 6] as u64) + 0x100_0000 * (self.data[at
                    + 7] as u64);
                Ok(low + 0x1_0000_0000 * high)
            },
            None => Err(unexpected_eof()),
        }
    }

    /// Reads a signed number of 4 bytes in two's complement, lowest byte
    /// first.
    pub fn read_i32(&mut self) -> (result: Result<i32, std::io::Error>)
        ensures
            old(self).read_moves(final(self), 4, result is Ok),
            result matches Ok(value) ==> value == le_signed(old(self).bytes(), old(self).position() as int, 4),
    {
        match self.read_u32() {
            Ok(unsigned) => {
                proof {
                    reveal_with_fuel(radix, 5);
                }
                if unsigned < 0x8000_0000 {
                    Ok(unsigned as i32)
                } else {
                    Ok((unsigned - 0x8000_0000) as i32 + i32::MIN)
                }
            },
            Err(error) => Err(error),
        }
    }

    /// Reads a run of `length` bytes.
    pub fn read_bytes(&mut self, length: usize) -> (result: Result<Vec<u8>, std::io::Error>)
        ensures
            old(self).read_moves(final(self), length as int, result is Ok),
            result matches Ok(run) ==> run@ == old(self).bytes().subrange(
                old(self).position() as int,
                old(self).position() + length,
            ),
    {
        match self.take(length) {
            Some(at) => {
                let mut run: Vec<u8> = Vec::with_capacity(length);
                let mut done: usize = 0;
                while done < length
                    invariant
                        done <= length,
                        at + length <= self.data.len(),
                        run@ == self.data@.subrange(at as int, at + done),
                    decreases length - done,
                {
                    run.push(self.data[at + done]);
                    done += 1;
                }
                Ok(run)
            },
            None => Err(unexpected_eof()),
        }
    }

    /// Reads a text of `length` characters, each of them one byte taken as
    /// its code point.
    pub fn read_string(&mut self, length: usize) -> (result: Result<String, std::io::Error>)
        ensures
            old(self).read_moves(final(self), length as int, result is Ok),
            result matches Ok(text) ==> text@ == latin1(
                old(self).bytes().subrange(old(self).position() as int, old(self).position() + length),
            ),
    {
        match self.take(length) {
            Some(at) => {
                let mut text = String::new();
                let mut done: usize = 0;
                while done < length
                    invariant
                        done <= length,
                        at + length <= self.data.len(),
                        text@ == latin1(self.data@.subrange(at as int, at + done)),
                    decreases length - done,
                {
                    text.push(self.data[at + done] as char);
                    done += 1;
                }
                Ok(text)
            },
            None => Err(unexpected_eof()),
        }
    }
}

} // verus!
