//! A program image: the raw bytes to be loaded at the program start
//! address, and their reading as big-endian instruction words.
//!
//! Reading the image from storage is the host's job; the library only
//! holds the bytes.

use vstd::prelude::*;

verus! {

/// Failure to obtain a program image from the host.
#[derive(Clone, Copy, Debug, PartialEq, Eq, Structural)]
pub enum ROMError {
    /// The host could not read the file.
    IOError,
    /// The host read fewer bytes than expected.
    BadError,
}

/// A program image.
pub struct ROM {
    data: Vec<u8>,
}

impl View for ROM {
    type V = Seq<u8>;

    closed spec fn view(&self) -> Seq<u8> {
        self.data@
    }
}

/// The image read as big-endian words: byte 2i is the high byte of word
/// i; a trailing odd byte stands alone as a high byte.
pub open spec fn spec_words(d: Seq<u8>) -> Seq<u16> {
    Seq::new(
        (((d.len() + 1) / 2) as nat),
        |i: int|
            if 2 * i + 1 < d.len() {
                ((d[2 * i] as u16) << 8) | (d[2 * i + 1] as u16)
            } else {
                (d[2 * i] as u16) << 8
            },
    )
}

impl ROM {
    /// Wrap raw program bytes.
    pub fn new(data: Vec<u8>) -> (r: ROM)
        ensures
            r@ == data@,
    {
        ROM { data }
    }

    /// Number of bytes in the image.
    pub fn size(&self) -> (n: usize)
        ensures
            n == self@.len(),
    {
        self.data.len()
    }

    /// The raw bytes.
    pub fn data(&self) -> (d: &Vec<u8>)
        ensures
            d@ == self@,
    {
        &self.data
    }

    /// The image as instruction words, for listing a program.
    pub fn words(&self) -> (ws: Vec<u16>)
        requires
            self@.len() < usize::MAX,
        ensures
            ws@ =~= spec_words(self@),
    {
        let mut ws: Vec<u16> = Vec::new();
        let mut idx: usize = 0;
        while idx < self.data.len()
            invariant
                self.data@.len() < usize::MAX,
                idx == 2 * ws@.len(),
                idx <= self.data@.len() + 1,
                ws@ =~= spec_words(self@).take(ws@.len() as int),
            decreases self.data@.len() + 1 - idx,
        {
            let mut word: u16 = (self.data[idx] as u16) << 8u16;
            if idx + 1 < self.data.len() {
                word = word | (self.data[idx + 1] as u16);
            }
            proof {
                assert(word == spec_words(self@)[ws@.len() as int]);
            }
            ws.push(word);
            idx = idx + 2;
        }
        ws
    }
}

} // verus!
