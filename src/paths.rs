use vstd::prelude::*;

verus! {

/// `base` extended by `part` as a filesystem path: an absolute `part`
/// replaces `base`, and one separator stands between the two.
pub open spec fn join_path(base: Seq<char>, part: Seq<char>) -> Seq<char> {
    if part.len() > 0 && part[0] == '/' {
        part
    } else if base.len() == 0 || base.last() == '/' {
        base + part
    } else {
        base + seq!['/'] + part
    }
}

/// Joins two path strings (see `join_path`).
pub fn join(base: &str, part: &str) -> (r: String)
    ensures
        r@ == join_path(base@, part@),
{
    proof {
        reveal_strlit("/");
    }
    let pn = part.unicode_len();
    if pn > 0 && part.get_char(0) == '/' {
        return String::from_str(part);
    }
    let bn = base.unicode_len();
    let mut r = String::from_str(base);
    if bn > 0 && base.get_char(bn - 1) != '/' {
        r.append("/");
    }
    r.append(part);
    r
}

/// Where downloads go unless a request names a directory of its own.
pub open spec fn download_base() -> Seq<char> {
    "/tmp/pegasus_downloads"@
}

/// The directory a job writes to: the requested subdirectory of the download
/// base, or its `default` subdirectory.
pub open spec fn target_directory_of(output_dir: Option<Seq<char>>) -> Seq<char> {
    match output_dir {
        Some(d) => join_path(download_base(), d),
        None => join_path(download_base(), "default"@),
    }
}

pub fn target_directory(output_dir: &Option<String>) -> (r: String)
    ensures
        r@ == target_directory_of(crate::progress::opt_view(*output_dir)),
{
    match output_dir {
        Some(d) => join("/tmp/pegasus_downloads", d.as_str()),
        None => join("/tmp/pegasus_downloads", "default"),
    }
}

} // verus!
