//! Parts of texts.
use crate::macros::template;
use vstd::prelude::*;

verus! {

/// Whether a text has a part somewhere in it.
#[verifier::opaque]
pub open spec fn has_part(text: Seq<char>, part: Seq<char>) -> bool {
    exists|before: Seq<char>, after: Seq<char>| text == #[trigger] (before + part + after)
}

/// A text is a part of itself.
pub broadcast proof fn part_of_itself(text: Seq<char>)
    ensures
        #[trigger] has_part(text, text),
{
    reveal(has_part);
    let none = Seq::<char>::empty();
    assert(text =~= none + text + none);
}

/// What is a part of one of two texts is a part of both together.
pub broadcast proof fn part_of_both(a: Seq<char>, b: Seq<char>, part: Seq<char>)
    ensures
        has_part(a, part) || has_part(b, part) ==> #[trigger] has_part(a + b, part),
{
    reveal(has_part);
    if has_part(a, part) {
        let (before, after) = choose|before: Seq<char>, after: Seq<char>|
            a == #[trigger] (before + part + after);
        assert(a + b =~= before + part + (after + b));
    }
    if has_part(b, part) {
        let (before, after) = choose|before: Seq<char>, after: Seq<char>|
            b == #[trigger] (before + part + after);
        assert(a + b =~= (a + before) + part + after);
    }
}

/// A part of a part is a part.
pub proof fn part_of_part(text: Seq<char>, middle: Seq<char>, part: Seq<char>)
    requires
        has_part(text, middle),
        has_part(middle, part),
    ensures
        has_part(text, part),
{
    reveal(has_part);
    let (before, after) = choose|before: Seq<char>, after: Seq<char>|
        text == #[trigger] (before + middle + after);
    part_of_both(before, middle, part);
    part_of_both(before + middle, after, part);
}

/// Three texts put together do not depend on which two are put together first.
pub broadcast proof fn parts_associate(a: Seq<char>, b: Seq<char>, c: Seq<char>)
    ensures
        #[trigger] (a + (b + c)) == a + b + c,
{
    assert(a + (b + c) =~= a + b + c);
}

/// A codec: what it is generic over, the storage type that it is for, the type that it belongs to
/// and under which condition; its width, whether reading can fail and with what, what reading
/// gives; and the bodies of its methods.
pub struct Codec {
    pub header: Seq<char>,
    pub target: Seq<char>,
    pub ty: Seq<char>,
    pub clause: Seq<char>,
    pub bits: Seq<char>,
    pub fallible: Seq<char>,
    pub result: Seq<char>,
    pub error: Seq<char>,
    pub read_bits: Seq<char>,
    pub try_read_bits: Seq<char>,
    pub write_bits: Seq<char>,
    pub read: Seq<char>,
}

/// A method of an impl of a trait.
pub open spec fn trait_method(signature: Seq<char>, body: Seq<char>) -> Seq<char> {
    "\n    "@ + ""@ + " "@ + ""@ + " fn "@ + signature + " {\n        "@ + body + "\n    }\n"@
}

impl Codec {
    /// The code of the codec.
    pub open spec fn code(self) -> Seq<char> {
        "\nimpl "@ + self.header + " BitCodec<"@ + self.target + "> for "@ + self.ty + " "@
            + self.clause + " {\n    const BITS: usize = "@ + self.bits
            + ";\n    const IS_FALLIBLE: bool = "@ + self.fallible + ";\n    type Read = "@
            + self.result + ";\n"@ + trait_method(
            "read_bits(src: &[u8], bit_offset: usize) -> Self"@,
            self.read_bits,
        ) + trait_method(
            "try_read_bits(src: &[u8], bit_offset: usize) -> Result<Self, "@ + self.error + ">"@,
            self.try_read_bits,
        ) + trait_method(
            "write_bits(&self, dst: &mut [u8], bit_offset: usize)"@,
            self.write_bits,
        ) + trait_method("read(src: &[u8], bit_offset: usize) -> Self::Read"@, self.read) + "}\n"@
    }
}

proof fn filled_behind(
    template: Seq<char>,
    holes: Seq<Seq<char>>,
    rest: Seq<char>,
    i: int,
)
    requires
        0 <= i <= rest.len(),
        rest.len() <= template.len(),
        rest == template.skip(template.len() - rest.len()),
    ensures
        template::filled_from(template, holes, template.len() - rest.len() + i)
            == template::filled_from(rest, holes, i),
    decreases rest.len() - i,
{
    let shift = template.len() - rest.len();
    assert forall|k: int| 0 <= k < rest.len() implies #[trigger] rest[k] == template[shift + k] by {}
    if i < rest.len() {
        assert(rest[i] == template[shift + i]);
        if i + 1 < rest.len() {
            assert(rest[i + 1] == template[shift + i + 1]);
            filled_behind(template, holes, rest, i + 2);
        }
        filled_behind(template, holes, rest, i + 1);
    }
}

/// What has no `$` stays as it is in a filled template.
pub proof fn plain_text_stays(plain: Seq<char>, holes: Seq<Seq<char>>, rest: Seq<char>)
    requires
        forall|i: int| 0 <= i < plain.len() ==> #[trigger] plain[i] != '$',
    ensures
        template::filled(plain + rest, holes) == plain + template::filled(rest, holes),
    decreases plain.len(),
{
    let whole = plain + rest;
    if plain.len() == 0 {
        assert(whole =~= rest);
        assert(plain + template::filled(rest, holes) =~= template::filled(rest, holes));
    } else {
        let tail = plain.drop_first();
        assert(whole.skip(1) =~= tail + rest);
        assert forall|i: int| 0 <= i < tail.len() implies #[trigger] tail[i] != '$' by {
            assert(tail[i] == plain[i + 1]);
        }
        plain_text_stays(tail, holes, rest);
        filled_behind(whole, holes, tail + rest, 0);
        assert(whole[0] == plain[0]);
        parts_associate(seq![plain[0]], tail, template::filled(rest, holes));
        assert(seq![plain[0]] + tail =~= plain);
    }
}

/// A `$` and a letter are replaced by what fills the letter's hole: `a` by the first, `b` by the second,
/// and so on.
pub proof fn holes_are_filled(letter: char, holes: Seq<Seq<char>>, rest: Seq<char>)
    requires
        0 <= letter as int - 'a' as int,
        letter as int - ('a' as int) < holes.len(),
    ensures
        template::filled(seq!['$', letter] + rest, holes) == holes[letter as int - 'a' as int]
            + template::filled(rest, holes),
{
    let whole = seq!['$', letter] + rest;
    assert(whole.skip(2) =~= rest);
    filled_behind(whole, holes, rest, 0);
}

} // verus!
