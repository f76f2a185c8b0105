use vstd::prelude::*;
use crate::strutil::{dec_str, push_char, spec_trim, str_eq, u64_to_dec};

verus! {

// ---------------------------------------------------------------------------
// Worktree naming: a branch name becomes a filesystem-safe directory
// name, a fresh directory is picked under the storage root, and the
// parent's ignore file learns about the storage root exactly once.
// ---------------------------------------------------------------------------

/// The characters a worktree directory name may keep from the branch.
pub open spec fn is_safe_char(c: char) -> bool {
    ||| 48 <= (c as u32) <= 57
    ||| 65 <= (c as u32) <= 90
    ||| 97 <= (c as u32) <= 122
    ||| c == '-'
    ||| c == '_'
    ||| c == '.'
}

fn is_safe(c: char) -> (r: bool)
    ensures
        r == is_safe_char(c),
{
    let v = c as u32;
    (48 <= v && v <= 57) || (65 <= v && v <= 90) || (97 <= v && v <= 122) || c == '-' || c == '_'
        || c == '.'
}

/// Every unsafe character replaced by a dash.
pub open spec fn dashed(s: Seq<char>) -> Seq<char> {
    s.map_values(
        |c: char|
            if is_safe_char(c) {
                c
            } else {
                '-'
            },
    )
}

pub open spec fn trim_dash_front(s: Seq<char>) -> Seq<char>
    decreases s.len(),
{
    if s.len() > 0 && s[0] == '-' {
        trim_dash_front(s.drop_first())
    } else {
        s
    }
}

pub open spec fn trim_dash_back(s: Seq<char>) -> Seq<char>
    decreases s.len(),
{
    if s.len() > 0 && s.last() == '-' {
        trim_dash_back(s.drop_last())
    } else {
        s
    }
}

/// What sanitizing a branch name yields: unsafe characters dashed,
/// leading and trailing dashes dropped, and a fixed fallback when
/// nothing is left.
pub open spec fn spec_sanitize(branch: Seq<char>) -> Seq<char> {
    let t = trim_dash_back(trim_dash_front(dashed(branch)));
    if t.len() == 0 {
        "worktree"@
    } else {
        t
    }
}

proof fn lemma_trim_dash_front_skip(s: Seq<char>, i: int)
    requires
        0 <= i <= s.len(),
        forall|j: int| 0 <= j < i ==> s[j] == '-',
        i == s.len() || s[i] != '-',
    ensures
        trim_dash_front(s) == s.subrange(i, s.len() as int),
    decreases i,
{
    if i == 0 {
        assert(s.subrange(0, s.len() as int) =~= s);
    } else {
        lemma_trim_dash_front_skip(s.drop_first(), i - 1);
        assert(s.drop_first().subrange(i - 1, s.drop_first().len() as int) =~= s.subrange(
            i,
            s.len() as int,
        ));
    }
}

proof fn lemma_trim_dash_back_skip(s: Seq<char>, e: int)
    requires
        0 <= e <= s.len(),
        forall|j: int| e <= j < s.len() ==> s[j] == '-',
        e == 0 || s[e - 1] != '-',
    ensures
        trim_dash_back(s) == s.subrange(0, e),
    decreases s.len() - e,
{
    if e == s.len() {
        assert(s.subrange(0, s.len() as int) =~= s);
    } else {
        lemma_trim_dash_back_skip(s.drop_last(), e);
        assert(s.drop_last().subrange(0, e) =~= s.subrange(0, e));
    }
}

/// Turns a branch name into a filesystem-safe directory name: every
/// character outside letters, digits, dot, dash and underscore becomes a
/// dash, leading and trailing dashes go, and an empty result becomes
/// "worktree".
pub fn sanitize_worktree_name(branch: &str) -> (r: String)
    ensures
        r@ == spec_sanitize(branch@),
{
    let len = branch.unicode_len();
    let mut mapped: Vec<char> = Vec::new();
    let mut i: usize = 0;
    while i < len
        invariant
            len == branch@.len(),
            i <= len,
            mapped@.len() == i,
            forall|j: int| 0 <= j < i ==> mapped@[j] == dashed(branch@)[j],
        decreases len - i,
    {
        let c = branch.get_char(i);
        if is_safe(c) {
            mapped.push(c);
        } else {
            mapped.push('-');
        }
        i += 1;
    }
    proof {
        assert(mapped@ =~= dashed(branch@));
    }
    let ghost d = dashed(branch@);
    let mut start: usize = 0;
    while start < mapped.len() && mapped[start] == '-'
        invariant
            mapped@ == d,
            start <= d.len(),
            forall|j: int| 0 <= j < start ==> d[j] == '-',
        decreases d.len() - start,
    {
        start += 1;
    }
    proof {
        lemma_trim_dash_front_skip(d, start as int);
    }
    let ghost front = d.subrange(start as int, d.len() as int);
    let mut end: usize = mapped.len();
    while end > start && mapped[end - 1] == '-'
        invariant
            mapped@ == d,
            start <= end <= d.len(),
            forall|j: int| end <= j < d.len() ==> d[j] == '-',
        decreases end,
    {
        end -= 1;
    }
    proof {
        assert(forall|j: int| end - start <= j < front.len() ==> front[j] == '-');
        assert(end - start == 0 || front[end - start - 1] != '-');
        lemma_trim_dash_back_skip(front, end - start);
        assert(front.subrange(0, end - start) =~= d.subrange(start as int, end as int));
    }
    if start == end {
        return String::from_str("worktree");
    }
    let mut r = String::new();
    let mut k = start;
    while k < end
        invariant
            mapped@ == d,
            start <= k <= end <= d.len(),
            r@ =~= d.subrange(start as int, k as int),
        decreases end - k,
    {
        push_char(&mut r, mapped[k]);
        k += 1;
        assert(d.subrange(start as int, k - 1).push(d[k - 1]) =~= d.subrange(
            start as int,
            k as int,
        ));
    }
    r
}

/// True when some element of the list reads as `x`.
pub open spec fn name_taken(taken: Seq<String>, x: Seq<char>) -> bool {
    exists|i: int| 0 <= i < taken.len() && taken[i]@ == x
}

fn contains_name(taken: &Vec<String>, x: &str) -> (r: bool)
    ensures
        r == name_taken(taken@, x@),
{
    let mut i: usize = 0;
    while i < taken.len()
        invariant
            i <= taken@.len(),
            forall|j: int| 0 <= j < i ==> taken@[j]@ != x@,
        decreases taken@.len() - i,
    {
        if str_eq(taken[i].as_str(), x) {
            return true;
        }
        i += 1;
    }
    false
}

/// The name with a numeric suffix.
pub open spec fn suffixed(base: Seq<char>, k: nat) -> Seq<char> {
    base + "-"@ + dec_str(k)
}

/// Picks a directory name not yet taken under the worktree storage root:
/// the base name itself when it is free, else the base with the least
/// free numeric suffix, counting from 2. When the base and every suffix
/// up to 999 are taken, no name is left and the allocation fails.
pub fn unique_worktree_path(taken: &Vec<String>, name: &str) -> (r: Result<String, String>)
    ensures
        match r {
            Ok(p) => {
                &&& !name_taken(taken@, p@)
                &&& (p@ == name@ || (name_taken(taken@, name@) && exists|k: nat|
                    #![trigger suffixed(name@, k)]
                    {
                        &&& 2 <= k < 1000
                        &&& p@ == suffixed(name@, k)
                        &&& forall|k0: nat|
                            2 <= k0 < k ==> name_taken(taken@, suffixed(name@, k0))
                    }))
            },
            Err(m) => {
                &&& m@ == "no free worktree directory name"@
                &&& name_taken(taken@, name@)
                &&& forall|k: nat| 2 <= k < 1000 ==> name_taken(taken@, suffixed(name@, k))
            },
        },
{
    if !contains_name(taken, name) {
        return Ok(String::from_str(name));
    }
    let mut k: u64 = 2;
    while k < 1000
        invariant
            2 <= k <= 1000,
            name_taken(taken@, name@),
            forall|k0: nat| 2 <= k0 < k ==> name_taken(taken@, suffixed(name@, k0)),
        decreases 1000 - k,
    {
        let mut candidate = String::from_str(name);
        candidate.append("-");
        let digits = u64_to_dec(k);
        candidate.append(digits.as_str());
        proof {
            assert(candidate@ == suffixed(name@, k as nat));
        }
        if !contains_name(taken, candidate.as_str()) {
            proof {
                assert(2 <= k as nat && (k as nat) < 1000);
                assert(candidate@ == suffixed(name@, k as nat));
                assert(forall|k0: nat|
                    2 <= k0 < k as nat ==> name_taken(taken@, suffixed(name@, k0)));
            }
            return Ok(candidate);
        }
        k += 1;
    }
    Err(String::from_str("no free worktree directory name"))
}

/// Allocating after an earlier allocation was taken yields a different
/// path: the second pick avoids everything taken, the first included.
pub proof fn lemma_second_path_differs(
    p1: Seq<char>,
    p2: Seq<char>,
    taken1: Seq<String>,
    taken2: Seq<String>,
)
    requires
        !name_taken(taken1, p1),
        name_taken(taken2, p1),
        !name_taken(taken2, p2),
    ensures
        p1 != p2,
{
}

/// The arguments of the git call that attaches a worktree: an existing
/// branch is checked out as it is, a missing one is created in the same
/// step.
pub fn worktree_add_args(branch_exists: bool, branch: &str, path: &str) -> (r: Vec<String>)
    ensures
        branch_exists ==> r@.len() == 4 && r@[0]@ == "worktree"@ && r@[1]@ == "add"@ && r@[2]@
            == path@ && r@[3]@ == branch@,
        !branch_exists ==> r@.len() == 5 && r@[0]@ == "worktree"@ && r@[1]@ == "add"@ && r@[2]@
            == "-b"@ && r@[3]@ == branch@ && r@[4]@ == path@,
{
    let mut args: Vec<String> = Vec::new();
    args.push(String::from_str("worktree"));
    args.push(String::from_str("add"));
    if branch_exists {
        args.push(String::from_str(path));
        args.push(String::from_str(branch));
    } else {
        args.push(String::from_str("-b"));
        args.push(String::from_str(branch));
        args.push(String::from_str(path));
    }
    args
}

/// The directory under a parent checkout that stores its worktrees.
pub fn worktree_storage_dir() -> (r: String)
    ensures
        r@ == ".codex-worktrees"@,
{
    String::from_str(".codex-worktrees")
}

// ---------------------------------------------------------------------------
// The ignore file.
// ---------------------------------------------------------------------------

/// The position of the first line break, or the end.
pub open spec fn first_nl(s: Seq<char>) -> int
    decreases s.len(),
{
    if s.len() == 0 {
        0
    } else if s[0] == '\n' {
        0
    } else {
        1 + first_nl(s.drop_first())
    }
}

proof fn lemma_first_nl(s: Seq<char>, i: int)
    requires
        0 <= i <= s.len(),
        forall|j: int| 0 <= j < i ==> s[j] != '\n',
        i == s.len() || s[i] == '\n',
    ensures
        first_nl(s) == i,
    decreases i,
{
    if i > 0 {
        lemma_first_nl(s.drop_first(), i - 1);
    }
}

/// The lines of a text, split at line breaks; a trailing break adds no
/// empty line.
pub open spec fn lines_of(s: Seq<char>) -> Seq<Seq<char>>
    decreases s.len(),
{
    if s.len() == 0 {
        Seq::<Seq<char>>::empty()
    } else {
        let i = first_nl(s);
        if 0 <= i < s.len() {
            seq![s.subrange(0, i)] + lines_of(s.subrange(i + 1, s.len() as int))
        } else {
            seq![s]
        }
    }
}

/// True when some line of the ignore file already names the worktree
/// storage directory, up to surrounding blanks.
pub open spec fn has_ignore_line(s: Seq<char>) -> bool {
    exists|i: int|
        0 <= i < lines_of(s).len() && spec_trim(#[trigger] lines_of(s)[i])
            == ".codex-worktrees/"@
}

/// What the patched ignore file holds: the old text, a line break where
/// one was missing, and the storage directory on a line of its own.
pub open spec fn patched_ignore(s: Seq<char>) -> Seq<char> {
    let sep: Seq<char> = if s.len() > 0 && s.last() != '\n' {
        "\n"@
    } else {
        Seq::<char>::empty()
    };
    s + sep + ".codex-worktrees/"@ + "\n"@
}

/// Decides whether the ignore file already names the worktree storage
/// directory; when it does not, yields the patched text to write back.
/// Patching twice never happens: the patched text always carries the
/// line.
pub fn patch_gitignore(existing: &str) -> (r: Option<String>)
    ensures
        match r {
            Option::None => has_ignore_line(existing@),
            Option::Some(s) => !has_ignore_line(existing@) && s@ == patched_ignore(existing@),
        },
{
    let len = existing.unicode_len();
    let mut pos: usize = 0;
    let ghost whole = existing@;
    proof {
        assert(whole.subrange(0, len as int) =~= whole);
    }
    while pos < len
        invariant
            len == whole.len(),
            whole == existing@,
            pos <= len,
            has_ignore_line(whole) == has_ignore_line(whole.subrange(pos as int, len as int)),
        decreases len - pos,
    {
        let ghost suffix = whole.subrange(pos as int, len as int);
        let mut nl: usize = pos;
        while nl < len && existing.get_char(nl) != '\n'
            invariant
                len == whole.len(),
                whole == existing@,
                pos <= nl <= len,
                forall|j: int| pos <= j < nl ==> whole[j] != '\n',
            decreases len - nl,
        {
            nl += 1;
        }
        proof {
            assert(forall|j: int| 0 <= j < nl - pos ==> suffix[j] != '\n');
            assert(nl - pos == suffix.len() || suffix[nl - pos] == '\n');
            lemma_first_nl(suffix, nl - pos);
        }
        let line = existing.substring_char(pos, nl);
        let t = crate::strutil::trim(line);
        let hit = str_eq(t.as_str(), ".codex-worktrees/");
        proof {
            if nl < len {
                assert(lines_of(suffix) == seq![suffix.subrange(0, nl - pos)] + lines_of(
                    suffix.subrange(nl - pos + 1, suffix.len() as int),
                ));
                assert(lines_of(suffix)[0] == suffix.subrange(0, nl - pos));
                assert(suffix.subrange(0, nl - pos) =~= whole.subrange(pos as int, nl as int));
            } else {
                assert(lines_of(suffix) == seq![suffix]);
                assert(suffix =~= whole.subrange(pos as int, nl as int));
            }
        }
        if hit {
            proof {
                assert(lines_of(suffix)[0] == whole.subrange(pos as int, nl as int));
                assert(has_ignore_line(suffix));
            }
            return Option::None;
        }
        proof {
            if nl < len {
                let rest = suffix.subrange(nl - pos + 1, suffix.len() as int);
                assert(rest =~= whole.subrange(nl + 1, len as int));
                assert forall|i: int|
                    0 <= i < lines_of(suffix).len() && spec_trim(#[trigger] lines_of(suffix)[i])
                        == ".codex-worktrees/"@ implies has_ignore_line(rest) by {
                    assert(i != 0);
                    assert(lines_of(suffix)[i] == lines_of(rest)[i - 1]);
                }
                assert forall|i: int|
                    0 <= i < lines_of(rest).len() && spec_trim(#[trigger] lines_of(rest)[i])
                        == ".codex-worktrees/"@ implies has_ignore_line(suffix) by {
                    assert(lines_of(suffix)[i + 1] == lines_of(rest)[i]);
                }
                assert(has_ignore_line(suffix) == has_ignore_line(rest));
            } else {
                let rest = whole.subrange(len as int, len as int);
                assert(rest.len() == 0);
                assert(lines_of(rest).len() == 0);
                assert(!has_ignore_line(rest));
                assert(lines_of(suffix) == seq![suffix]);
                assert(!has_ignore_line(suffix)) by {
                    if has_ignore_line(suffix) {
                        let i = choose|i: int|
                            0 <= i < lines_of(suffix).len() && spec_trim(lines_of(suffix)[i])
                                == ".codex-worktrees/"@;
                        assert(i == 0);
                        assert(lines_of(suffix)[0] == suffix);
                    }
                }
            }
        }
        if nl < len {
            pos = nl + 1;
        } else {
            pos = len;
        }
    }
    proof {
        let rest = whole.subrange(pos as int, len as int);
        assert(rest.len() == 0);
        assert(lines_of(rest).len() == 0);
        assert(!has_ignore_line(rest));
        assert(!has_ignore_line(whole));
    }
    let mut out = String::from_str(existing);
    let needs_break = len > 0 && existing.get_char(len - 1) != '\n';
    if needs_break {
        out.append("\n");
    }
    out.append(".codex-worktrees/");
    out.append("\n");
    proof {
        assert(out@ =~= patched_ignore(existing@));
    }
    Option::Some(out)
}

} // verus!
