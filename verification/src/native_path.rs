//! Paths as the operating system holds them.

use vstd::prelude::*;
use vstd::utf8::decode_utf8;
use vstd::utf8::valid_utf8;

verus! {

/// A path: bytes, or 16-bit units on an operating system whose paths consist of those. Neither
/// need be a text.
#[derive(Debug, PartialEq, Eq)]
pub enum NativePath {
    Bytes(Vec<u8>),
    Wide(Vec<u16>),
}

/// What a [`NativePath`] is.
pub enum PathView {
    Bytes(Seq<u8>),
    Wide(Seq<u16>),
}

impl View for NativePath {
    type V = PathView;

    open spec fn view(&self) -> PathView {
        match *self {
            NativePath::Bytes(bytes) => PathView::Bytes(bytes@),
            NativePath::Wide(units) => PathView::Wide(units@),
        }
    }
}

impl Clone for NativePath {
    fn clone(&self) -> (copy: Self)
        ensures
            copy@ == self@,
    {
        match self {
            NativePath::Bytes(bytes) => {
                let copy = bytes.clone();
                assert(copy@ =~= bytes@);
                NativePath::Bytes(copy)
            },
            NativePath::Wide(units) => {
                let copy = units.clone();
                assert(copy@ =~= units@);
                NativePath::Wide(copy)
            },
        }
    }
}

/// A path that may be absent.
pub open spec fn path_view(path: Option<NativePath>) -> Option<PathView> {
    match path {
        Some(path) => Some(path@),
        None => None,
    }
}

/// The text that the standard library makes of bytes that may be no text.
pub uninterp spec fn lossy_text(bytes: Seq<u8>) -> Seq<char>;

/// Whether a unit is the first half of a pair that stands for one character.
pub open spec fn is_high_surrogate(unit: u16) -> bool {
    0xd800 <= unit < 0xdc00
}

/// Whether a unit is the second half of a pair that stands for one character.
pub open spec fn is_low_surrogate(unit: u16) -> bool {
    0xdc00 <= unit < 0xe000
}

/// The text that UTF-16 units encode, with a replacement character for each half of a pair that
/// stands alone.
pub open spec fn wide_text(units: Seq<u16>) -> Seq<char>
    decreases units.len(),
{
    if units.len() == 0 {
        Seq::empty()
    } else if units.len() >= 2 && is_high_surrogate(units[0]) && is_low_surrogate(units[1]) {
        let code = 0x10000 + (units[0] - 0xd800) * 0x400 + (units[1] - 0xdc00);
        seq![code as char] + wide_text(units.skip(2))
    } else if is_high_surrogate(units[0]) || is_low_surrogate(units[0]) {
        seq!['\u{fffd}'] + wide_text(units.skip(1))
    } else {
        seq![units[0] as char] + wide_text(units.skip(1))
    }
}

/// The text of a path, with replacement characters for what is no text.
pub open spec fn path_text(path: PathView) -> Seq<char> {
    match path {
        PathView::Bytes(bytes) => lossy_text(bytes),
        PathView::Wide(units) => wide_text(units),
    }
}

/// The text of some bytes, `String::from_utf8_lossy`: what the bytes encode, with replacement
/// characters for those that encode nothing. The contract names the result, which depends on
/// the bytes alone, and says what it is for bytes that are valid.
#[verifier::external_body]
fn decode_lossy(bytes: &[u8]) -> (text: String)
    ensures
        text@ == lossy_text(bytes@),
        valid_utf8(bytes@) ==> text@ == decode_utf8(bytes@),
{
    String::from_utf8_lossy(bytes).into_owned()
}

/// The text of some UTF-16 units, `String::from_utf16_lossy`: what the units encode, with a
/// replacement character for each surrogate that is not part of a pair.
#[verifier::external_body]
fn decode_wide_lossy(units: &[u16]) -> (text: String)
    ensures
        text@ == wide_text(units@),
{
    String::from_utf16_lossy(units)
}

impl NativePath {
    /// The text of the path.
    pub fn to_string_lossy(&self) -> (text: String)
        ensures
            text@ == path_text(self@),
            self@ matches PathView::Bytes(bytes) ==> valid_utf8(bytes) ==> text@ == decode_utf8(
                bytes,
            ),
    {
        match self {
            NativePath::Bytes(bytes) => decode_lossy(bytes.as_slice()),
            NativePath::Wide(units) => decode_wide_lossy(units.as_slice()),
        }
    }
}

/// The text of UTF-16 units, from their parts. A unit that is half of no pair stands for its own
/// character, and a half that stands alone for a replacement character. The two halves of a pair
/// stand for the one character that they encode.
pub proof fn law_wide_text_of_a_character(unit: u16, next: u16)
    ensures
        wide_text(Seq::empty()) == Seq::<char>::empty(),
        wide_text(seq![unit]).len() == 1,
        !(0xd800 <= unit <= 0xdfff) ==> wide_text(seq![unit])[0] as int == unit,
        0xd800 <= unit <= 0xdfff ==> wide_text(seq![unit])[0] == '\u{fffd}',
        0xd800 <= unit <= 0xdbff && 0xdc00 <= next <= 0xdfff ==> {
            &&& wide_text(seq![unit, next]).len() == 1
            &&& wide_text(seq![unit, next])[0] as int == 0x10000 + (unit - 0xd800) * 0x400 + (next
                - 0xdc00)
        },
{
    assert(seq![unit].skip(1) =~= Seq::empty());
    assert(wide_text(seq![unit].skip(1)).len() == 0);
    assert(seq![unit, next].skip(2) =~= Seq::empty());
    assert(wide_text(seq![unit, next].skip(2)).len() == 0);
}

/// The text of UTF-16 units can be cut wherever no pair is cut: it is the text of the units in
/// front of the cut, followed by that of the units behind it.
pub proof fn law_wide_text_of_a_concatenation(first: Seq<u16>, second: Seq<u16>)
    requires
        first.len() > 0 && second.len() > 0 ==> !(0xd800 <= first.last() <= 0xdbff && 0xdc00
            <= second[0] <= 0xdfff),
    ensures
        wide_text(first + second) == wide_text(first) + wide_text(second),
    decreases first.len(),
{
    let units = first + second;
    if first.len() == 0 {
        assert(units =~= second);
        assert(wide_text(first) + wide_text(second) =~= wide_text(second));
    } else if first.len() >= 2 && is_high_surrogate(first[0]) && is_low_surrogate(first[1]) {
        assert(units.skip(2) =~= first.skip(2) + second);
        law_wide_text_of_a_concatenation(first.skip(2), second);
        assert(wide_text(units) =~= wide_text(first) + wide_text(second));
    } else {
        assert(units.skip(1) =~= first.skip(1) + second);
        law_wide_text_of_a_concatenation(first.skip(1), second);
        assert(wide_text(units) =~= wide_text(first) + wide_text(second));
    }
}

/// The text of a path is that of its bytes or of its units.
pub proof fn law_path_text_is_that_of_its_parts(path: PathView)
    ensures
        match path {
            PathView::Bytes(bytes) => path_text(path) == lossy_text(bytes),
            PathView::Wide(units) => path_text(path) == wide_text(units),
        },
{
}

} // verus!
