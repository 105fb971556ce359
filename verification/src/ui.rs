//! Composition of the banner lines that frame the pipeline's log output.
//! The application prints them; this module only builds the text.

use vstd::prelude::*;
use vstd::string::StringExecFns;
use vstd::string::StrSliceExecFns;

verus! {

/// The full-width separator line.
pub const BASE_BANNER: &'static str =
    "------------------------------------------------------------------------";

/// Dashes filling the banner up to its width after the given title length:
/// the width, less the title and its four framing characters, floored at
/// nothing.
pub open spec fn banner_padding(base_len: int, title_len: int) -> int {
    if title_len + 4 <= base_len {
        base_len - title_len - 4
    } else {
        0
    }
}

/// A banner line: the separator as it is, or `-- title ` followed by enough
/// dashes to reach the separator's width.
pub open spec fn banner_chars(base: Seq<char>, title: Option<Seq<char>>) -> Seq<char> {
    match title {
        None => base,
        Some(t) => "-- "@ + t + " "@ + Seq::new(
            banner_padding(base.len() as int, t.len() as int) as nat,
            |i: int| '-',
        ),
    }
}

/// Builds the banner line for an optional title.
pub fn banner(text: Option<&str>) -> (r: String)
    ensures
        r@ == banner_chars(BASE_BANNER@, match text {
            Some(t) => Some(t@),
            None => None,
        }),
{
    match text {
        None => BASE_BANNER.to_owned(),
        Some(t) => {
            let base_len = BASE_BANNER.unicode_len();
            let title_len = t.unicode_len();
            let num: usize = if title_len >= base_len {
                0
            } else {
                let d = base_len - title_len;
                if d >= 4 {
                    d - 4
                } else {
                    0
                }
            };
            proof {
                assert(num == banner_padding(base_len as int, title_len as int));
            }
            let mut r: String = "-- ".to_owned();
            r.append(t);
            r.append(" ");
            proof {
                assert(r@ =~= "-- "@ + t@ + " "@ + Seq::new(0, |j: int| '-'));
            }
            let mut i: usize = 0;
            while i < num
                invariant
                    i <= num,
                    r@ == "-- "@ + t@ + " "@ + Seq::new(i as nat, |j: int| '-'),
                decreases num - i,
            {
                r.append("-");
                proof {
                    reveal_strlit("-");
                    assert("-"@ =~= seq!['-']);
                    assert(r@ =~= "-- "@ + t@ + " "@ + Seq::new((i + 1) as nat, |j: int| '-'));
                }
                i = i + 1;
            }
            proof {
                assert(r@ == banner_chars(BASE_BANNER@, Some(t@)));
            }
            r
        },
    }
}

} // verus!
