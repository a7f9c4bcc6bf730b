//! Text in the Latin-1 character set, the character set of VHDL source.

use vstd::prelude::*;

verus! {

/// The characters that a sequence of Latin-1 bytes stands for: each byte
/// is the code point of its character.
pub open spec fn latin1_chars(bytes: Seq<u8>) -> Seq<char> {
    Seq::new(bytes.len(), |i: int| bytes[i] as char)
}

/// A string of Latin-1 bytes. Its view is the sequence of its bytes.
#[derive(Debug)]
pub struct Latin1String {
    pub bytes: Vec<u8>,
}

impl View for Latin1String {
    type V = Seq<u8>;

    open spec fn view(&self) -> Seq<u8> {
        self.bytes@
    }
}

impl Clone for Latin1String {
    fn clone(&self) -> (res: Self)
        ensures
            res@ == self@,
    {
        let bytes = self.bytes.clone();
        assert(bytes@ =~= self.bytes@);
        Latin1String { bytes }
    }
}

impl Latin1String {
    pub fn new(bytes: &[u8]) -> (res: Latin1String)
        ensures
            res@ == bytes@,
    {
        Latin1String { bytes: vstd::slice::slice_to_vec(bytes) }
    }

    pub fn from_vec(bytes: Vec<u8>) -> (res: Latin1String)
        ensures
            res@ == bytes@,
    {
        Latin1String { bytes }
    }

    pub fn len(&self) -> (n: usize)
        ensures
            n == self@.len(),
    {
        self.bytes.len()
    }

    /// Whether two strings hold the same bytes.
    pub fn same_text(&self, other: &Latin1String) -> (same: bool)
        ensures
            same == (self@ == other@),
    {
        if self.bytes.len() != other.bytes.len() {
            return false;
        }
        let mut i: usize = 0;
        while i < self.bytes.len()
            invariant
                i <= self.bytes.len(),
                self.bytes.len() == other.bytes.len(),
                forall|j: int| 0 <= j < i ==> self.bytes@[j] == other.bytes@[j],
            decreases self.bytes.len() - i,
        {
            if self.bytes[i] != other.bytes[i] {
                return false;
            }
            i += 1;
        }
        assert(self@ =~= other@);
        true
    }

    /// Appends the characters of this string to `out`.
    pub fn append_to(&self, out: &mut String)
        ensures
            final(out)@ == old(out)@ + latin1_chars(self@),
    {
        let mut i: usize = 0;
        while i < self.bytes.len()
            invariant
                i <= self.bytes.len(),
                out@ == old(out)@ + latin1_chars(self@.take(i as int)),
            decreases self.bytes.len() - i,
        {
            push_char(out, self.bytes[i] as char);
            assert(latin1_chars(self@.take(i + 1)) =~= latin1_chars(self@.take(i as int)).push(
                self.bytes@[i as int] as char,
            ));
            i += 1;
        }
        assert(self@.take(i as int) =~= self@);
    }

    /// The text as a `String`, each byte turned into the character with
    /// that code point.
    pub fn to_string(&self) -> (text: String)
        ensures
            text@ == latin1_chars(self@),
    {
        let mut text = String::new();
        self.append_to(&mut text);
        text
    }
}

/// `String::push` of std: the character is added at the end of the
/// string, and the rest of the string stays.
#[verifier::external_body]
pub(crate) fn push_char(text: &mut String, c: char)
    ensures
        final(text)@ == old(text)@.push(c),
{
    text.push(c);
}

} // verus!
