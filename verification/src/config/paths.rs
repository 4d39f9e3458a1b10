//! File paths as text.
use vstd::prelude::*;
use crate::text::{has_prefix, has_suffix, joined, same_text, split, split_on, texts};

verus! {

/// A path and a relative name below it.
pub open spec fn path_join(base: Seq<char>, name: Seq<char>) -> Seq<char> {
    if base.len() == 0 {
        name
    } else if base.last() == '/' {
        base + name
    } else {
        base + "/"@ + name
    }
}

pub fn join_path(base: &str, name: &str) -> (r: String)
    ensures
        r@ == path_join(base@, name@),
{
    if base.is_empty() {
        return name.to_owned();
    }
    proof {
        reveal_strlit("/");
        let slash = "/"@;
        assert(slash =~= seq!['/']);
        if slash.is_suffix_of(base@) {
            assert(base@.subrange(base@.len() - 1, base@.len() as int)[0] == '/');
        }
        if base@.last() == '/' {
            assert(base@.subrange(base@.len() - 1, base@.len() as int) =~= slash);
        }
    }
    if has_suffix(base, "/") {
        base.to_owned().concat(name)
    } else {
        base.to_owned().concat("/").concat(name)
    }
}

/// Whether a path starts at the root.
pub open spec fn is_absolute(path: Seq<char>) -> bool {
    path.len() > 0 && path[0] == '/'
}

/// The parts of a path that name something: not empty and not the directory
/// itself.
pub open spec fn path_parts(parts: Seq<Seq<char>>) -> Seq<Seq<char>>
    decreases parts.len(),
{
    if parts.len() == 0 {
        Seq::empty()
    } else {
        let before = path_parts(parts.drop_last());
        if parts.last().len() == 0 || parts.last() == "."@ {
            before
        } else {
            before.push(parts.last())
        }
    }
}

/// An absolute path written with single slashes and without `.` parts.
pub open spec fn clean_path(path: Seq<char>) -> Seq<char> {
    "/"@ + joined(path_parts(split_on(path, '/')), "/"@)
}

fn cleaned(path: &str) -> (r: String)
    ensures
        r@ == clean_path(path@),
{
    let parts = split(path, '/');
    let n: usize = parts.len();
    let ghost all = texts(parts@);
    let mut kept: String = String::new();
    let mut count: usize = 0;
    proof {
        assert(all.take(0) =~= Seq::empty());
        assert(path_parts(all.take(0)) =~= Seq::empty());
        assert(kept@ =~= joined(path_parts(all.take(0)), "/"@));
    }
    for i in 0..n
        invariant
            n == parts@.len(),
            all == texts(parts@),
            count <= i,
            count == path_parts(all.take(i as int)).len(),
            kept@ == joined(path_parts(all.take(i as int)), "/"@),
    {
        let ghost before = path_parts(all.take(i as int));
        assert(all.take(i + 1).drop_last() =~= all.take(i as int));
        assert(all.take(i + 1).last() == parts@[i as int]@);
        if !parts[i].as_str().is_empty() && !same_text(&parts[i], ".") {
            let ghost after = before.push(parts@[i as int]@);
            assert(after.drop_last() =~= before);
            if count == 0 {
                kept = parts[i].clone();
            } else {
                kept = kept.concat("/").concat(&parts[i]);
            }
            count = count + 1;
        }
    }
    assert(all.take(n as int) =~= all);
    "/".to_owned().concat(&kept)
}

/// The directory of the program: the one that was asked for, else the default
/// one; a relative one is taken from the working directory and cleaned up.
pub open spec fn home_path(
    config_dir: Option<String>,
    default_home: Seq<char>,
    current_dir: Seq<char>,
) -> Seq<char> {
    let chosen = match config_dir {
        Some(dir) => dir@,
        None => default_home,
    };
    if is_absolute(chosen) {
        chosen
    } else {
        clean_path(path_join(current_dir, chosen))
    }
}

/// The directory of the program. The working directory is an absolute path.
pub fn resolve_home_path(config_dir: &Option<String>, default_home: &str, current_dir: &str) -> (r:
    String)
    ensures
        r@ == home_path(*config_dir, default_home@, current_dir@),
{
    let chosen = match config_dir {
        Some(dir) => dir.clone(),
        None => default_home.to_owned(),
    };
    proof {
        reveal_strlit("/");
        assert("/"@ =~= seq!['/']);
        if "/"@.is_prefix_of(chosen@) {
            assert(chosen@.subrange(0, 1)[0] == '/');
        }
        if is_absolute(chosen@) {
            assert(chosen@.subrange(0, 1) =~= "/"@);
        }
    }
    if has_prefix(&chosen, "/") {
        chosen
    } else {
        cleaned(&join_path(current_dir, &chosen))
    }
}

/// A path and a name below it have exactly one slash between them, where there
/// is a path.
pub proof fn law_one_slash_between(base: Seq<char>, name: Seq<char>)
    ensures
        path_join(Seq::empty(), name) == name,
        path_join(base.push('/'), name) == base.push('/') + name,
        base.len() > 0 && base.last() != '/' ==> path_join(base, name) == base.push('/') + name,
{
    reveal_strlit("/");
    assert("/"@ =~= seq!['/']);
    assert(base + "/"@ + name =~= base.push('/') + name);
}

/// The program's directory is the one asked for, or the default where none is;
/// one that starts at the root stays as it is, and another one is found from
/// the working directory.
pub proof fn law_home_path(dir: Option<String>, default_home: Seq<char>, current_dir: Seq<char>)
    ensures
        ({
            let chosen = match dir {
                Some(d) => d@,
                None => default_home,
            };
            let home = home_path(dir, default_home, current_dir);
            &&& chosen.len() > 0 && chosen[0] == '/' ==> home == chosen
            &&& chosen.len() == 0 || chosen[0] != '/' ==> home == clean_path(
                path_join(current_dir, chosen),
            ) && home.len() > 0 && home[0] == '/'
        }),
{
    reveal_strlit("/");
}

/// A cleaned path has the parts of the path in their order, without the empty
/// ones and those that name the directory itself.
pub proof fn law_each_part_is_kept_or_dropped(front: Seq<Seq<char>>, part: Seq<char>)
    ensures
        path_parts(Seq::empty()) == Seq::<Seq<char>>::empty(),
        part.len() == 0 || part == "."@ ==> path_parts(front.push(part)) == path_parts(front),
        part.len() > 0 && part != "."@ ==> path_parts(front.push(part)) == path_parts(front).push(
            part,
        ),
{
    assert(front.push(part).drop_last() =~= front);
}

} // verus!
