//! Paths in a compact form: the home folder becomes `~`, and a long path loses its
//! middle.

use vstd::prelude::*;
use crate::path::{FilePath, PathView};
use crate::text::chars_of;

verus! {

/// The length that a path is shown in full up to.
pub const MAX_LEN: usize = 60;

/// How many characters are kept in front of the ellipsis.
pub const HEAD_KEEP: usize = 29;

/// How many characters are kept behind the ellipsis.
pub const TAIL_KEEP: usize = 30;

/// The text of a path with the home folder replaced.
pub open spec fn from_home(p: PathView, home: Option<PathView>) -> Seq<char> {
    match home {
        Some(h) => if h.parts().len() > 0 && h.parts().is_prefix_of(p.parts()) {
            let rest = crate::path::text_of(p.pieces.skip(h.pieces.len() as int)) + p.tail;
            if rest.len() == 0 || crate::path::is_separator(rest[0]) {
                "~"@ + rest
            } else {
                "~\\"@ + rest
            }
        } else {
            p.text()
        },
        None => p.text(),
    }
}

/// A text that is short enough, or its head and tail with an ellipsis between.
pub open spec fn without_middle(s: Seq<char>) -> Seq<char> {
    if vstd::utf8::encode_utf8(s).len() <= MAX_LEN || s.len() <= HEAD_KEEP + TAIL_KEEP {
        s
    } else {
        s.take(HEAD_KEEP as int) + "…"@ + s.skip(s.len() - TAIL_KEEP)
    }
}

/// What is shown is never longer than the text itself, and of a text that loses its
/// middle exactly as long as the bound; both ends stay.
pub proof fn shortened_law(s: Seq<char>)
    ensures
        without_middle(s).len() <= s.len(),
        without_middle(s) == s || without_middle(s).len() == MAX_LEN,
        without_middle(s) != s ==> {
            &&& without_middle(s).take(HEAD_KEEP as int) == s.take(HEAD_KEEP as int)
            &&& without_middle(s).skip(MAX_LEN - TAIL_KEEP) == s.skip(s.len() - TAIL_KEEP)
        },
{
    reveal_strlit("…");
    if without_middle(s) != s {
        assert(without_middle(s).take(HEAD_KEEP as int) =~= s.take(HEAD_KEEP as int));
        assert(without_middle(s).skip(MAX_LEN - TAIL_KEEP) =~= s.skip(s.len() - TAIL_KEEP));
    }
}

/// Shortening a text that was shortened changes nothing more.
pub proof fn shortening_is_idempotent(s: Seq<char>)
    ensures
        without_middle(without_middle(s)) == without_middle(s),
{
    reveal_strlit("…");
    let t = without_middle(s);
    if t != s {
        assert(t.take(HEAD_KEEP as int) + "…"@ + t.skip(t.len() - TAIL_KEEP) =~= t);
    }
}

/// Writes a path in its compact form.
pub fn shorten(p: &FilePath, home: Option<&FilePath>) -> (r: String)
    ensures
        r@ == without_middle(
            from_home(
                p@,
                match home {
                    Some(h) => Some(h@),
                    None => None,
                },
            ),
        ),
{
    let text: String = match home {
        Some(h) => if !h.is_empty() && p.starts_with(h) {
            let mut rest: String = p.text_from(h.pieces.len());
            rest.append(p.tail.as_str());
            let x: Vec<char> = chars_of(rest.as_str());
            let mut out: String = if x.len() == 0 || x[0] == '\\' || x[0] == '/' {
                "~".to_owned()
            } else {
                "~\\".to_owned()
            };
            out.append(rest.as_str());
            out
        } else {
            p.display()
        },
        None => p.display(),
    };
    let s: &str = text.as_str();
    if s.as_bytes().len() <= MAX_LEN {
        return text;
    }
    let count: usize = s.unicode_len();
    if count <= HEAD_KEEP + TAIL_KEEP {
        return text;
    }
    let mut out: String = s.substring_char(0, HEAD_KEEP).to_owned();
    out.append("…");
    out.append(s.substring_char(count - TAIL_KEEP, count));
    proof {
        assert(text@.subrange(0, HEAD_KEEP as int) =~= text@.take(HEAD_KEEP as int));
        assert(text@.subrange(count - TAIL_KEEP, count as int) =~= text@.skip(
            text@.len() - TAIL_KEEP,
        ));
    }
    out
}

/// A path in the home folder is written as a tilde, then what it has beyond the home
/// folder, behind a separator; any other path as it is.
pub proof fn home_is_a_tilde(p: PathView, h: PathView)
    ensures
        h.parts().len() > 0 && h.parts().is_prefix_of(p.parts()) ==> {
            let r = from_home(p, Some(h));
            let above = crate::path::text_of(p.pieces.take(h.pieces.len() as int));
            let rest = p.text().skip(above.len() as int);
            &&& above.is_prefix_of(p.text())
            &&& r.len() > 0 && r[0] == '~'
            &&& r.len() > 1 ==> r[1] == '\\' || r[1] == '/'
            &&& rest.len() == 0 ==> r == seq!['~']
            &&& rest.len() > 0 && (rest[0] == '\\' || rest[0] == '/') ==> r == seq!['~'] + rest
            &&& rest.len() > 0 && rest[0] != '\\' && rest[0] != '/' ==> r == seq!['~', '\\'] + rest
        },
        h.parts().len() == 0 || !h.parts().is_prefix_of(p.parts()) ==> from_home(p, Some(h))
            == p.text(),
        from_home(p, None) == p.text(),
{
    reveal_strlit("~");
    reveal_strlit("~\\");
    let n = h.pieces.len() as int;
    if h.parts().len() > 0 && h.parts().is_prefix_of(p.parts()) {
        assert(h.parts().len() == n);
        assert(p.parts().len() >= n);
        crate::path::text_of_both(p.pieces.take(n), p.pieces.skip(n));
        assert(p.pieces.take(n) + p.pieces.skip(n) =~= p.pieces);
        let above = crate::path::text_of(p.pieces.take(n));
        let rest = crate::path::text_of(p.pieces.skip(n)) + p.tail;
        assert(p.text() =~= above + rest);
        assert(p.text().skip(above.len() as int) =~= rest);
        assert(p.text().subrange(0, above.len() as int) =~= above);
        assert("~"@ =~= seq!['~']);
        assert("~\\"@ =~= seq!['~', '\\']);
        if rest.len() == 0 {
            assert("~"@ + rest =~= seq!['~']);
        }
    }
}

/// A text of up to sixty bytes is shown in full. A longer one of at least sixty
/// characters keeps its first twenty-nine and its last thirty, with an ellipsis between.
pub proof fn long_texts_lose_their_middle(s: Seq<char>)
    ensures
        vstd::utf8::encode_utf8(s).len() <= 60 || s.len() < 60 ==> without_middle(s) == s,
        vstd::utf8::encode_utf8(s).len() > 60 && s.len() >= 60 ==> {
            let r = without_middle(s);
            &&& r.len() == 60
            &&& r[29] == '…'
            &&& forall|i: int| 0 <= i < 29 ==> r[i] == s[i]
            &&& forall|i: int| 30 <= i < 60 ==> #[trigger] r[i] == s[s.len() - 60 + i]
        },
{
    reveal_strlit("…");
}

} // verus!
