//! Texts with holes.
use vstd::prelude::*;

verus! {

/// The hole that a letter stands for: `a` for the first, `b` for the second, and so on.
pub open spec fn hole(letter: char) -> int {
    letter as int - 'a' as int
}

/// A template from character `i` on, with each `$` and the letter behind it replaced by what fills
/// that hole.
pub open spec fn filled_from(template: Seq<char>, holes: Seq<Seq<char>>, i: int) -> Seq<char>
    decreases template.len() - i,
{
    if i < 0 || i >= template.len() {
        Seq::empty()
    } else if template[i] == '$' && i + 1 < template.len() && 0 <= hole(template[i + 1])
        < holes.len() {
        holes[hole(template[i + 1])] + filled_from(template, holes, i + 2)
    } else {
        seq![template[i]] + filled_from(template, holes, i + 1)
    }
}

/// A template with its holes filled.
pub open spec fn filled(template: Seq<char>, holes: Seq<Seq<char>>) -> Seq<char> {
    filled_from(template, holes, 0)
}

/// The contents of string slices.
pub open spec fn str_views(list: Seq<&str>) -> Seq<Seq<char>> {
    Seq::new(list.len(), |i: int| list[i]@)
}

/// Fills the holes of a template.
pub fn fill(template: &str, holes: &[&str]) -> (r: String)
    ensures
        r@ == filled(template@, str_views(holes@)),
{
    let ghost views = str_views(holes@);
    let count = template.unicode_len();
    let mut out = String::new();
    let mut i: usize = 0;
    let mut from: usize = 0;
    assert(out@ + filled_from(template@, views, 0) =~= filled(template@, views));
    while i < count
        invariant
            from <= i <= count,
            count == template@.len(),
            views == str_views(holes@),
            out@ + template@.subrange(from as int, i as int) + filled_from(
                template@,
                views,
                i as int,
            ) == filled(template@, views),
        decreases count - i,
    {
        let c = template.get_char(i);
        if c == '$' && i + 1 < count {
            let letter = template.get_char(i + 1);
            if letter >= 'a' && ((letter as u32 - 'a' as u32) as usize) < holes.len() {
                let k: usize = (letter as u32 - 'a' as u32) as usize;
                out.append(template.substring_char(from, i));
                out.append(holes[k]);
                i += 2;
                from = i;
                continue;
            }
        }
        i += 1;
    }
    out.append(template.substring_char(from, count));
    out
}

} // verus!
