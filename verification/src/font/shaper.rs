//! A simple shaper: maps the non-blank characters of a phrase to the glyphs
//! the font's format-4 character map names.

use crate::font::grammar::first_format_4;
use crate::font::grammar::spec_glyph_index;
use crate::font::grammar::CMapFormat4;
use crate::font::grammar::Glyph;
use crate::font::grammar::TrueTypeFontFile;
use vstd::prelude::*;

verus! {

/// The blank characters the shaper skips between words.
pub open spec fn is_blank(c: char) -> bool {
    c == ' ' || c == '\t' || c == '\n' || c == '\r'
}

/// The glyph indices of a phrase's non-blank characters, in order.
pub open spec fn shaped_indices(c4: CMapFormat4, phrase: Seq<char>) -> Seq<int>
    decreases phrase.len(),
{
    if phrase.len() == 0 {
        Seq::empty()
    } else if is_blank(phrase[0]) {
        shaped_indices(c4, phrase.skip(1))
    } else {
        seq![spec_glyph_index(c4, phrase[0] as u16)] + shaped_indices(c4, phrase.skip(1))
    }
}

/// The shaper over one parsed font file.
#[derive(Debug)]
pub struct TrueTypeFontShaper<'a> {
    pub file: &'a TrueTypeFontFile,
}

impl<'a> TrueTypeFontShaper<'a> {
    pub fn from(file: &'a TrueTypeFontFile) -> (r: TrueTypeFontShaper<'a>)
        ensures
            r.file == file,
    {
        TrueTypeFontShaper { file }
    }

    /// Map each non-blank character of the phrase to its glyph, through the
    /// font's first format-4 character map. Characters must lie in the basic
    /// plane and map to glyphs the font holds.
    #[verifier::loop_isolation(false)]
    pub fn shape(&self, phrase: &[char]) -> (r: Vec<&'a Glyph>)
        requires
            first_format_4(self.file.cmap_table.subtables@) matches Some(c4) && c4.wf() && (
            forall|k: int|
                0 <= k < phrase@.len() && !is_blank(phrase@[k]) ==> phrase@[k] as int <= 0xffff) && (
            forall|j: int|
                0 <= j < shaped_indices(c4, phrase@).len() ==> 0 <= #[trigger] shaped_indices(
                    c4,
                    phrase@,
                )[j] < self.file.glyph_table.glyphs@.len()),
        ensures
            ({
                let c4 = first_format_4(self.file.cmap_table.subtables@).unwrap();
                let idx = shaped_indices(c4, phrase@);
                &&& r@.len() == idx.len()
                &&& forall|j: int|
                    0 <= j < idx.len() ==> *(#[trigger] r@[j]) == self.file.glyph_table.glyphs@[idx[j]]
            }),
    {
        let cmap_4 = match self.file.cmap_table.format_4() {
            Some(c) => c,
            None => {
                proof {
                    assert(false);
                }
                return Vec::new();
            },
        };
        let ghost c4 = *cmap_4;

        let n = phrase.len();
        let mut out: Vec<&'a Glyph> = Vec::new();
        let ghost mut done: Seq<int> = Seq::empty();
        let mut i: usize = 0;
        proof {
            assert(phrase@.skip(0) =~= phrase@);
        }
        while i < n
            invariant
                0 <= i <= n,
                out@.len() == done.len(),
                shaped_indices(c4, phrase@) == done + shaped_indices(c4, phrase@.skip(i as int)),
                forall|j: int|
                    0 <= j < done.len() ==> *(#[trigger] out@[j])
                        == self.file.glyph_table.glyphs@[done[j]],
            decreases n - i,
        {
            let c = phrase[i];
            proof {
                assert(phrase@.skip(i as int)[0] == phrase@[i as int]);
                assert(phrase@.skip(i as int).skip(1) =~= phrase@.skip(i + 1));
            }
            if !(c == ' ' || c == '\t' || c == '\n' || c == '\r') {
                let j = cmap_4.find_glyph_index(c);
                proof {
                    let idx = shaped_indices(c4, phrase@);
                    assert(shaped_indices(c4, phrase@.skip(i as int)) == seq![
                        spec_glyph_index(c4, c as u16),
                    ] + shaped_indices(c4, phrase@.skip(i + 1)));
                    assert(idx[done.len() as int] == spec_glyph_index(c4, c as u16));
                    assert(0 <= done.len() < idx.len());
                }
                out.push(&self.file.glyph_table.glyphs[j]);
                proof {
                    done = done.push(spec_glyph_index(c4, c as u16));
                    assert(done + shaped_indices(c4, phrase@.skip(i + 1)) =~= (done.drop_last()
                        + (seq![spec_glyph_index(c4, c as u16)] + shaped_indices(
                        c4,
                        phrase@.skip(i + 1),
                    ))));
                }
            }
            i = i + 1;
        }
        proof {
            assert(shaped_indices(c4, phrase@.skip(n as int)) == Seq::<int>::empty());
            assert(done + Seq::<int>::empty() =~= done);
        }
        out
    }
}

} // verus!
