//! Paths as texts, with `/` between their components.
use crate::failure::{fail, Failure};
use crate::text::{cat2, cat3, chars_of, equal, holds, pieces, split, texts};
use vstd::prelude::*;
use vstd::string::*;

verus! {

/// `rest` seen from `base`; an absolute `rest` stands for itself.
pub open spec fn joined_path(base: Seq<char>, rest: Seq<char>) -> Seq<char> {
    if rest.len() > 0 && rest[0] == '/' {
        rest
    } else if base.len() == 0 || base.last() == '/' {
        base + rest
    } else {
        base + "/"@ + rest
    }
}

pub fn join_path(base: &str, rest: &str) -> (r: String)
    ensures
        r@ == joined_path(base@, rest@),
{
    let b = chars_of(base);
    let t = chars_of(rest);
    if t.len() > 0 && t[0] == '/' {
        rest.to_owned()
    } else if b.len() == 0 || b[b.len() - 1] == '/' {
        cat2(base, rest)
    } else {
        cat3(base, "/", rest)
    }
}

/// Whether a path stays below the directory it is seen from: it is not empty and not
/// absolute, does not start at the directory itself, and goes up nowhere.
pub open spec fn safe_relative(path: Seq<char>) -> bool {
    let parts = pieces(path, '/');
    &&& path.len() > 0
    &&& path[0] != '/'
    &&& parts[0] != "."@
    &&& !parts.contains(".."@)
}

/// Checks that a path stays below the directory it is seen from.
pub fn safe_relative_path(path: &str) -> (r: Result<(), Failure>)
    ensures
        match r {
            Ok(()) => safe_relative(path@),
            Err(e) => !safe_relative(path@) && e.message@
                == "Git returned unsafe repository-relative path `"@ + path@ + "`"@,
        },
{
    let v = chars_of(path);
    let parts = split(path, '/');
    assert(parts@.len() == pieces(path@, '/').len());
    assert(pieces(path@, '/').len() > 0);
    let up = holds(&parts, "..");
    assert(texts(parts@)[0] == parts@[0]@);
    if v.len() == 0 || v[0] == '/' || equal(parts[0].as_str(), ".") || up {
        fail(cat3("Git returned unsafe repository-relative path `", path, "`"))
    } else {
        Ok(())
    }
}

/// A relative path is put behind its base with one slash between, and an absolute one stands
/// for itself.
pub proof fn law_paths_are_joined_by_one_slash(base: Seq<char>, rest: Seq<char>)
    ensures
        rest.len() > 0 && rest[0] == '/' ==> joined_path(base, rest) == rest,
        base.len() > 0 && base.last() != '/' && rest.len() > 0 && rest[0] != '/' ==> joined_path(
            base,
            rest,
        ) == base + seq!['/'] + rest,
        base.len() > 0 && base.last() == '/' && rest.len() > 0 && rest[0] != '/' ==> joined_path(
            base,
            rest,
        ) == base + rest,
{
    reveal_strlit("/");
    assert("/"@ =~= seq!['/']);
}

/// A path is safe only where it is relative and goes up nowhere; a plain name is safe, and so
/// is everything below it that goes up nowhere.
pub proof fn law_safe_paths_go_up_nowhere(head: Seq<char>, rest: Seq<char>, path: Seq<char>)
    requires
        forall|i: int| 0 <= i < head.len() ==> #[trigger] head[i] != '/',
    ensures
        path.len() == 0 ==> !safe_relative(path),
        path.len() > 0 && path[0] == '/' ==> !safe_relative(path),
        pieces(path, '/').contains(".."@) ==> !safe_relative(path),
        head.len() > 0 && head != "."@ && head != ".."@ ==> safe_relative(head),
        head.len() > 0 && head != "."@ && head != ".."@ ==> (safe_relative(
            head + seq!['/'] + rest,
        ) <==> !pieces(rest, '/').contains(".."@)),
        !safe_relative(".."@ + seq!['/'] + rest),
        !safe_relative("."@ + seq!['/'] + rest),
{
    reveal_strlit("..");
    reveal_strlit(".");
    crate::text_laws::law_pieces_end_at_separators(head, '/', rest);
    crate::text_laws::law_pieces_end_at_separators(".."@, '/', rest);
    crate::text_laws::law_pieces_end_at_separators("."@, '/', rest);
    let more = pieces(rest, '/');
    let all = seq![head] + more;
    if more.contains(".."@) {
        let k = choose|k: int| 0 <= k < more.len() && more[k] == ".."@;
        assert(all[k + 1] == ".."@);
    }
    if all.contains(".."@) && head != ".."@ {
        let k = choose|k: int| 0 <= k < all.len() && all[k] == ".."@;
        assert(all[k] == more[k - 1]);
    }
    assert((seq![".."@] + more)[0] == ".."@);
    if head.len() > 0 && head != ".."@ && seq![head].contains(".."@) {
        let k = choose|k: int| 0 <= k < 1 && seq![head][k] == ".."@;
    }
}

} // verus!
