use vstd::prelude::*;

verus! {

/// Words per disk sector, as the drive reads them.
pub const SECTOR_SIZE: usize = 256;

/// One ATA drive: its number and how many words one of its sectors
/// holds.
pub struct Drive {
    pub _id: usize,
    pub sector_size: usize,
}

impl Drive {
    /// The drive with the given number and sector size.
    pub fn new(_id: usize, sector_size: usize) -> (r: Drive)
        ensures
            r._id == _id,
            r.sector_size == sector_size,
    {
        Drive { _id, sector_size }
    }

    /// How many words a read of `total` sectors returns.
    pub fn read_length(&self, total: usize) -> (r: Option<usize>)
        ensures
            match r {
                Some(n) => n == total * self.sector_size,
                None => total * self.sector_size > usize::MAX,
            },
    {
        proof {
            vstd::arithmetic::mul::lemma_mul_nonnegative(
                total as int,
                self.sector_size as int,
            );
        }
        total.checked_mul(self.sector_size)
    }
}

/// The printable-ASCII bytes of one drive word, high byte first: each
/// byte survives exactly when it is a visible character.
pub open spec fn word_printable(w: u16) -> Seq<u8> {
    keep_printable((w >> 8) as u8) + keep_printable(w as u8)
}

/// The byte itself when it is printable ASCII, nothing otherwise.
pub open spec fn keep_printable(b: u8) -> Seq<u8> {
    if 31 < b < 127 {
        seq![b]
    } else {
        Seq::empty()
    }
}

/// Every printable byte of the words, in order.
pub open spec fn printable_bytes(words: Seq<u16>) -> Seq<u8>
    decreases words.len(),
{
    if words.len() == 0 {
        Seq::empty()
    } else {
        printable_bytes(words.drop_last()) + word_printable(words.last())
    }
}

/// Renders raw drive words as text: splits each word into its two bytes,
/// high byte first, and keeps exactly the printable ASCII ones.
pub fn printable_text(data: &[u16]) -> (r: Vec<u8>)
    ensures
        r@ == printable_bytes(data@),
{
    let mut out: Vec<u8> = Vec::new();
    let mut i: usize = 0;
    proof {
        assert(data@.subrange(0, 0) =~= Seq::<u16>::empty());
    }
    while i < data.len()
        invariant
            i <= data@.len(),
            out@ == printable_bytes(data@.subrange(0, i as int)),
        decreases data@.len() - i,
    {
        let w = data[i];
        let hi = (w >> 8) as u8;
        let lo = w as u8;
        if 31 < hi && hi < 127 {
            out.push(hi);
        }
        if 31 < lo && lo < 127 {
            out.push(lo);
        }
        proof {
            assert(data@.subrange(0, i + 1).drop_last() =~= data@.subrange(0, i as int));
            assert(data@.subrange(0, i + 1).last() == data@[i as int]);
            assert(out@ =~= printable_bytes(data@.subrange(0, i + 1)));
        }
        i += 1;
    }
    proof {
        assert(data@.subrange(0, data@.len() as int) =~= data@);
    }
    out
}

impl Default for Drive {
    /// The first drive, with the standard sector size.
    fn default() -> (r: Drive)
        ensures
            r._id == 0,
            r.sector_size == SECTOR_SIZE,
    {
        Drive::new(0, SECTOR_SIZE)
    }
}

} // verus!
