use vstd::prelude::*;
use vstd::string::StrSliceExecFns;
use vstd::string::StringExecFns;

verus! {

/// The characters of `p` after its last `/` (all of `p` if it holds none).
pub open spec fn tail_segment(p: Seq<char>) -> Seq<char>
    decreases p.len(),
{
    if p.len() == 0 || p.last() == '/' {
        Seq::empty()
    } else {
        tail_segment(p.drop_last()).push(p.last())
    }
}

/// The last segment of `p` that is neither empty nor `.`, if any.
pub open spec fn last_named_segment(p: Seq<char>) -> Option<Seq<char>>
    decreases p.len(),
{
    if p.len() == 0 {
        None
    } else {
        let t = tail_segment(p);
        if t.len() == 0 || t == seq!['.'] {
            last_named_segment(p.drop_last())
        } else {
            Some(t)
        }
    }
}

/// The vault name of a mountpoint: its final path component, which must be a
/// name (not `..`, and not absent as for `/`).
pub open spec fn vault_name_of(mountpoint: Seq<char>) -> Option<Seq<char>> {
    match last_named_segment(mountpoint) {
        Some(t) => if t == seq!['.', '.'] { None } else { Some(t) },
        None => None,
    }
}

/// The directory under which opened encrypted volumes appear.
pub open spec fn mapper_root() -> Seq<char> {
    seq!['/', 'd', 'e', 'v', '/', 'm', 'a', 'p', 'p', 'e', 'r']
}

/// The mapped device path of the vault called `name`.
pub open spec fn mapped_path_of(name: Seq<char>) -> Seq<char> {
    mapper_root().push('/') + name
}

proof fn lemma_tail_segment_from(p: Seq<char>, s: int)
    requires
        0 <= s <= p.len(),
        s == 0 || p[s - 1] == '/',
        forall|k: int| s <= k < p.len() ==> p[k] != '/',
    ensures
        tail_segment(p) == p.subrange(s, p.len() as int),
    decreases p.len(),
{
    if p.len() == s {
        if p.len() > 0 {
            assert(p.last() == '/');
        }
        assert(p.subrange(s, p.len() as int) =~= Seq::<char>::empty());
    } else {
        let q = p.drop_last();
        lemma_tail_segment_from(q, s);
        assert(p.subrange(s, p.len() as int) =~= q.subrange(s, q.len() as int).push(p.last()));
    }
}

proof fn lemma_tail_segment_no_slash(p: Seq<char>)
    ensures
        forall|k: int| 0 <= k < tail_segment(p).len() ==> tail_segment(p)[k] != '/',
        tail_segment(p).len() <= p.len(),
    decreases p.len(),
{
    if p.len() > 0 && p.last() != '/' {
        lemma_tail_segment_no_slash(p.drop_last());
    }
}

/// A vault name holds no path separator, as a device-mapper name must not.
pub proof fn lemma_vault_name_has_no_separator(mountpoint: Seq<char>)
    requires
        vault_name_of(mountpoint) is Some,
    ensures
        vault_name_of(mountpoint)->Some_0.len() > 0,
        forall|k: int|
            0 <= k < vault_name_of(mountpoint)->Some_0.len() ==> vault_name_of(mountpoint)->Some_0[k]
                != '/',
    decreases mountpoint.len(),
{
    let t = tail_segment(mountpoint);
    lemma_tail_segment_no_slash(mountpoint);
    if t.len() == 0 || t == seq!['.'] {
        lemma_vault_name_has_no_separator(mountpoint.drop_last());
    }
}

/// The characters of `s`, in order.
fn chars_of(s: &str) -> (r: Vec<char>)
    ensures
        r@ == s@,
{
    let mut r: Vec<char> = Vec::new();
    for c in it: s.chars()
        invariant
            r@ == it.history(),
    {
        r.push(c);
    }
    r
}

/// Derives the vault name from a mountpoint: its final path component.
/// Trailing separators and `.` components are ignored; `None` where the
/// path ends in no name (`/`, the empty path, `.` or `..`).
pub fn vault_name(mountpoint: &str) -> (r: Option<String>)
    ensures
        r matches Some(n) ==> vault_name_of(mountpoint@) == Some(n@),
        r is None ==> vault_name_of(mountpoint@) is None,
{
    let cs = chars_of(mountpoint);
    let mut end: usize = cs.len();
    proof {
        assert(cs@ =~= cs@.subrange(0, end as int));
    }
    while end > 0
        invariant
            cs@ == mountpoint@,
            end <= cs@.len(),
            last_named_segment(cs@) == last_named_segment(cs@.subrange(0, end as int)),
        decreases end,
    {
        let mut start: usize = end;
        while start > 0 && cs[start - 1] != '/'
            invariant
                start <= end <= cs@.len(),
                forall|k: int| start <= k < end ==> cs@[k] != '/',
            decreases start,
        {
            start = start - 1;
        }
        let ghost p = cs@.subrange(0, end as int);
        proof {
            lemma_tail_segment_from(p, start as int);
            assert(p.subrange(start as int, end as int) =~= cs@.subrange(start as int, end as int));
        }
        let len = end - start;
        if len == 0 || (len == 1 && cs[start] == '.') {
            proof {
                assert(len == 1 ==> tail_segment(p) =~= seq!['.']);
                assert(p.drop_last() =~= cs@.subrange(0, end - 1));
            }
            end = end - 1;
        } else {
            proof {
                if len == 1 {
                    assert(tail_segment(p)[0] == cs@[start as int]);
                }
                assert(tail_segment(p).len() != 1 || tail_segment(p) != seq!['.']);
            }
            let seg = mountpoint.substring_char(start, end);
            if len == 2 && cs[start] == '.' && cs[start + 1] == '.' {
                proof {
                    assert(tail_segment(p) =~= seq!['.', '.']);
                }
                return None;
            }
            proof {
                assert(tail_segment(p) != seq!['.', '.']) by {
                    if len == 2 {
                        assert(tail_segment(p)[0] == cs@[start as int]);
                        assert(tail_segment(p)[1] == cs@[start + 1]);
                    }
                }
            }
            proof {
                assert(last_named_segment(p) == Some(tail_segment(p)));
            }
            return Some(String::from_str(seg));
        }
    }
    proof {
        assert(cs@.subrange(0, 0) =~= Seq::<char>::empty());
    }
    None
}

/// The mapped device path `/dev/mapper/<name>` of the vault called `name`.
pub fn mapped_path(name: &str) -> (r: String)
    ensures
        r@ == mapped_path_of(name@),
{
    let mut r = String::from_str("/dev/mapper/");
    proof {
        reveal_strlit("/dev/mapper/");
        assert("/dev/mapper/"@ =~= mapper_root().push('/'));
    }
    r.append(name);
    r
}

} // verus!
