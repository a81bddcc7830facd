//! Identifiers of tasks and providers.

use vstd::prelude::*;

verus! {

/// Identifier of a task: the 128-bit value of its UUID.
pub type TaskId = u128;

/// Identifier of a provider: the 128-bit value of its UUID.
pub type ProviderId = u128;

/// The sixteen hexadecimal digits in order, letters in lower case.
pub open spec fn hex_digits() -> Seq<char> {
    seq!['0', '1', '2', '3', '4', '5', '6', '7', '8', '9', 'a', 'b', 'c', 'd', 'e', 'f']
}

/// The last `width` hexadecimal digits of `v`, most significant first.
pub open spec fn hex_fixed(v: nat, width: nat) -> Seq<char>
    decreases width,
{
    if width == 0 {
        Seq::empty()
    } else {
        hex_fixed(v / 16, (width - 1) as nat).push(hex_digits()[(v % 16) as int])
    }
}

/// The canonical text of an identifier: its 32 hexadecimal digits, most
/// significant first, in groups of 8, 4, 4, 4 and 12 joined by hyphens.
pub open spec fn hyphenated_text(id: u128) -> Seq<char> {
    let h = hex_fixed(id as nat, 32);
    h.subrange(0, 8) + seq!['-'] + h.subrange(8, 12) + seq!['-'] + h.subrange(12, 16) + seq![
        '-',
    ] + h.subrange(16, 20) + seq!['-'] + h.subrange(20, 32)
}

/// `hex_fixed(v, width)` has `width` characters, all of them hexadecimal
/// digits.
pub proof fn lemma_hex_fixed(v: nat, width: nat)
    ensures
        hex_fixed(v, width).len() == width,
        forall|i: int| 0 <= i < width ==> hex_digits().contains(#[trigger] hex_fixed(v, width)[i]),
    decreases width,
{
    if width > 0 {
        let init = hex_fixed(v / 16, (width - 1) as nat);
        lemma_hex_fixed(v / 16, (width - 1) as nat);
        let last = hex_digits()[(v % 16) as int];
        assert(hex_digits().contains(last));
        assert forall|i: int| 0 <= i < width implies hex_digits().contains(
            #[trigger] hex_fixed(v, width)[i],
        ) by {
            if i < width - 1 {
                assert(hex_fixed(v, width)[i] == init[i]);
            }
        }
    }
}

/// The canonical text of an identifier has 36 characters: hyphens at the
/// positions 8, 13, 18 and 23 and hexadecimal digits everywhere else. It
/// holds no slash, so it names one entry of a directory.
pub proof fn lemma_hyphenated_shape(id: u128)
    ensures
        hyphenated_text(id).len() == 36,
        !hyphenated_text(id).contains('/'),
        forall|i: int|
            0 <= i < 36 ==> if i == 8 || i == 13 || i == 18 || i == 23 {
                (#[trigger] hyphenated_text(id)[i]) == '-'
            } else {
                hex_digits().contains(hyphenated_text(id)[i])
            },
{
    let h = hex_fixed(id as nat, 32);
    lemma_hex_fixed(id as nat, 32);
    let text = hyphenated_text(id);
    assert(text.len() == 36);
    assert forall|i: int| 0 <= i < 36 implies if i == 8 || i == 13 || i == 18 || i == 23 {
        (#[trigger] text[i]) == '-'
    } else {
        hex_digits().contains(text[i])
    } by {
        if i < 8 {
            assert(text[i] == h[i]);
        } else if 8 < i < 13 {
            assert(text[i] == h[i - 1]);
        } else if 13 < i < 18 {
            assert(text[i] == h[i - 2]);
        } else if 18 < i < 23 {
            assert(text[i] == h[i - 3]);
        } else if 23 < i {
            assert(text[i] == h[i - 4]);
        }
    }
    if text.contains('/') {
        let i = choose|i: int| 0 <= i < text.len() && text[i] == '/';
        assert(hex_digits().contains(text[i]) || text[i] == '-');
        if hex_digits().contains('/') {
            let k = choose|k: int| 0 <= k < hex_digits().len() && hex_digits()[k] == '/';
        }
    }
}

/// Renders an identifier as `uuid::Uuid::from_u128(id)` displays it.
///
/// Trusted: the `Display` of a `Uuid` is its lower-case hyphenated form.
#[verifier::external_body]
pub(crate) fn hyphenated(id: u128) -> (text: String)
    ensures
        text@ == hyphenated_text(id),
{
    uuid::Uuid::from_u128(id).to_string()
}

} // verus!
