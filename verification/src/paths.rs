//! Paths as text, with `/` between their parts, as Unix has them.
use vstd::prelude::*;

verus! {

/// A path that starts at the root.
pub open spec fn is_absolute(path: Seq<char>) -> bool {
    path.len() > 0 && path[0] == '/'
}

/// `child` seen from `base`, as `std::path::Path::join` has it on Unix: an absolute
/// child stands for itself, any other one below `base`, with one separator between them unless
/// `base` is empty or ends in one.
pub open spec fn path_join(base: Seq<char>, child: Seq<char>) -> Seq<char> {
    if is_absolute(child) {
        child
    } else if base.len() == 0 || base.last() == '/' {
        base + child
    } else {
        base + seq!['/'] + child
    }
}

/// `name` is one part of a path: not empty, and without a separator.
pub open spec fn is_file_name(name: Seq<char>) -> bool {
    &&& name.len() > 0
    &&& forall|i: int| 0 <= i < name.len() ==> #[trigger] name[i] != '/'
}

/// Joins two paths.
pub fn join_path(base: &str, child: &str) -> (r: String)
    ensures
        r@ == path_join(base@, child@),
{
    proof {
        reveal_strlit("/");
        assert("/"@ =~= seq!['/']);
    }
    if child.unicode_len() > 0 && child.get_char(0) == '/' {
        return child.to_owned();
    }
    let mut out = base.to_owned();
    let len: usize = base.unicode_len();
    if len > 0 && base.get_char(len - 1) != '/' {
        out.append("/");
    }
    out.append(child);
    out
}

/// Different names below one directory are different paths.
pub proof fn law_names_below_a_directory_are_distinct(
    base: Seq<char>,
    name1: Seq<char>,
    name2: Seq<char>,
)
    requires
        is_file_name(name1),
        is_file_name(name2),
        path_join(base, name1) == path_join(base, name2),
    ensures
        name1 == name2,
{
    let p1 = path_join(base, name1);
    let p2 = path_join(base, name2);
    assert(p1.len() - name1.len() == p2.len() - name2.len());
    let k = p1.len() - name1.len();
    assert(p1.skip(k) =~= name1);
    assert(p2.skip(k) =~= name2);
}

/// A file in one directory below `base` is no file in another directory below `base`.
pub proof fn law_directories_are_apart(
    base: Seq<char>,
    dir1: Seq<char>,
    name1: Seq<char>,
    dir2: Seq<char>,
    name2: Seq<char>,
)
    requires
        is_file_name(dir1),
        is_file_name(dir2),
        is_file_name(name1),
        is_file_name(name2),
        path_join(path_join(base, dir1), name1) == path_join(path_join(base, dir2), name2),
    ensures
        dir1 == dir2,
        name1 == name2,
{
    let p1 = path_join(base, dir1);
    let p2 = path_join(base, dir2);
    let q1 = path_join(p1, name1);
    let q2 = path_join(p2, name2);
    assert(p1.last() == dir1.last());
    assert(p2.last() == dir2.last());
    assert(q1 =~= p1 + seq!['/'] + name1);
    assert(q2 =~= p2 + seq!['/'] + name2);
    // The last separator stands at the same place in both.
    assert(q1[p1.len() as int] == '/');
    assert(q2[p2.len() as int] == '/');
    if p1.len() < p2.len() {
        assert(q1[p2.len() as int] == name1[p2.len() - p1.len() - 1]);
    }
    if p2.len() < p1.len() {
        assert(q2[p1.len() as int] == name2[p1.len() - p2.len() - 1]);
    }
    assert(q1.take(p1.len() as int) =~= p1);
    assert(q2.take(p2.len() as int) =~= p2);
    assert(q1.skip(p1.len() as int + 1) =~= name1);
    assert(q2.skip(p2.len() as int + 1) =~= name2);
    law_names_below_a_directory_are_distinct(base, dir1, dir2);
}

/// A path that starts at the root stays what it is when it is joined to another; any other path
/// comes behind that other one, with a separator between them where that other one does not end in
/// one (an empty one needs none), and with nothing else between them.
pub proof fn law_join_puts_the_child_below(base: Seq<char>, child: Seq<char>)
    ensures
        ({
            let path = path_join(base, child);
            if child.len() > 0 && child[0] == '/' {
                path == child
            } else {
                &&& base.is_prefix_of(path)
                &&& child.is_suffix_of(path)
                &&& if base.len() > 0 && base[base.len() - 1] != '/' {
                    path.len() == base.len() + 1 + child.len() && path[base.len() as int] == '/'
                } else {
                    path.len() == base.len() + child.len()
                }
            }
        }),
{
    let path = path_join(base, child);
    if !is_absolute(child) {
        assert(path.subrange(0, base.len() as int) =~= base);
        assert(path.subrange(path.len() - child.len(), path.len() as int) =~= child);
    }
}

} // verus!
