//! Where a review is persisted: `.coderlm/reviews/{id}.json` under the
//! repository root. Reading and writing the files is done outside this
//! module; here are the paths, as strings.

use vstd::prelude::*;

use crate::text::{append_str, push_char};

verus! {

/// Joining `part` onto the path `base`, as a Unix path join does: an
/// absolute `part` replaces `base`; otherwise `part` follows `base`, after a
/// `/` unless `base` is empty or already ends with one.
pub open spec fn path_join(base: Seq<char>, part: Seq<char>) -> Seq<char> {
    if part.len() > 0 && part[0] == '/' {
        part
    } else if base.len() == 0 || base.last() == '/' {
        base + part
    } else {
        base + seq!['/'] + part
    }
}

/// The directory holding the persisted reviews of a repository.
pub open spec fn reviews_dir_spec(repo_root: Seq<char>) -> Seq<char> {
    path_join(path_join(repo_root, ".coderlm"@), "reviews"@)
}

/// The file holding the persisted review `review_id`.
pub open spec fn review_path_spec(repo_root: Seq<char>, review_id: Seq<char>) -> Seq<char> {
    path_join(reviews_dir_spec(repo_root), review_id + ".json"@)
}

/// Joins `part` onto the path `base`.
pub fn join_path(base: &str, part: &str) -> (r: String)
    ensures
        r@ == path_join(base@, part@),
{
    let mut r = String::new();
    let b = crate::text::chars_of(base);
    let p = crate::text::chars_of(part);
    if p.len() > 0 && p[0] == '/' {
        append_str(&mut r, part);
        assert(r@ =~= part@);
        return r;
    }
    append_str(&mut r, base);
    if b.len() > 0 && b[b.len() - 1] != '/' {
        push_char(&mut r, '/');
    }
    append_str(&mut r, part);
    assert(b@.len() > 0 ==> b@.last() == b@[b.len() - 1]);
    assert(r@ =~= path_join(base@, part@));
    r
}

/// `repo_root/.coderlm/reviews`.
pub fn reviews_dir(repo_root: &str) -> (r: String)
    ensures
        r@ == reviews_dir_spec(repo_root@),
{
    let d = join_path(repo_root, ".coderlm");
    join_path(d.as_str(), "reviews")
}

/// `repo_root/.coderlm/reviews/{review_id}.json`.
pub fn review_path(repo_root: &str, review_id: &str) -> (r: String)
    ensures
        r@ == review_path_spec(repo_root@, review_id@),
{
    let dir = reviews_dir(repo_root);
    let mut name = String::new();
    append_str(&mut name, review_id);
    append_str(&mut name, ".json");
    join_path(dir.as_str(), name.as_str())
}

} // verus!
