//! Which physical disks host a path.
use vstd::prelude::*;
use vstd::utf8::*;

use crate::inventory::Partition;
use crate::text;

verus! {

// --- Normal form of a path ---------------------------------------------------

/// The lowercase form of a text.
pub open spec fn lowered(s: Seq<char>) -> Seq<char> {
    if is_ascii_chars(s) {
        s.map_values(|c: char| text::ascii_lower(c))
    } else {
        text::unicode_lowercase(s)
    }
}

/// `s` with backslashes alone for separators, and exactly one at its end.
pub open spec fn separated(s: Seq<char>) -> Seq<char> {
    text::trimmed_end_of(text::replaced(s, '/', '\\'), '\\').push('\\')
}

/// The normal form of a path: without white space around it, lowercase, with
/// backslashes for separators and exactly one at the end.
pub open spec fn normalized(path: Seq<char>) -> Seq<char> {
    separated(lowered(text::trimmed(path)))
}

/// Turns the separators of a lowercase path into backslashes and leaves exactly
/// one at its end.
pub fn separate(lowered: &str) -> (r: String)
    ensures
        r@ == separated(lowered@),
{
    let folded = text::replace_char(lowered, '/', '\\');
    let mut out = text::trim_end_matches(folded.as_str(), '\\').to_owned();
    out.push('\\');
    out
}

/// The normal form of `path`, in which `C:`, `c:\` and `C:/` are the same.
pub fn normalize_path(path: &str) -> (r: String)
    ensures
        r@ == normalized(path@),
{
    let lowered = text::trim(path).to_lowercase();
    separate(lowered.as_str())
}

/// Without the characters `c` at its end, a text does not end in `c`, and is a
/// front part of what it was.
proof fn lemma_trimmed_end_of(s: Seq<char>, c: char)
    ensures
        text::trimmed_end_of(s, c).is_prefix_of(s),
        text::trimmed_end_of(s, c).len() > 0 ==> text::trimmed_end_of(s, c).last() != c,
    decreases s.len(),
{
    if s.len() > 0 && s.last() == c {
        lemma_trimmed_end_of(s.drop_last(), c);
        let t = text::trimmed_end_of(s, c);
        assert(s.drop_last().subrange(0, t.len() as int) =~= s.subrange(0, t.len() as int));
    } else {
        assert(s.subrange(0, s.len() as int) =~= s);
    }
}

/// Whatever a lowercase text holds, the kind of its separators makes no
/// difference once they are folded, nor does a separator at its end.
pub proof fn law_kind_of_separators_is_ignored(s: Seq<char>)
    ensures
        separated(text::replaced(s, '\\', '/')) == separated(s),
        separated(text::replaced(s, '/', '\\')) == separated(s),
        separated(s.push('/')) == separated(s),
        separated(s.push('\\')) == separated(s),
{
    let folded = text::replaced(s, '/', '\\');
    assert(text::replaced(text::replaced(s, '\\', '/'), '/', '\\') =~= folded);
    assert(text::replaced(folded, '/', '\\') =~= folded);
    assert(text::replaced(s.push('/'), '/', '\\').drop_last() =~= folded);
    assert(text::replaced(s.push('\\'), '/', '\\').drop_last() =~= folded);
}

/// To fold the separators of any text again changes nothing.
pub proof fn law_folding_twice_is_folding_once(s: Seq<char>)
    ensures
        separated(separated(s)) == separated(s),
{
    let folded = text::replaced(s, '/', '\\');
    let t = text::trimmed_end_of(folded, '\\');
    let n = separated(s);
    lemma_trimmed_end_of(folded, '\\');
    assert forall|i: int| 0 <= i < t.len() implies t[i] == folded[i] by {
        assert(t[i] == folded.subrange(0, t.len() as int)[i]);
    }
    assert(text::replaced(n, '/', '\\') =~= n);
    assert(n.drop_last() =~= t);
    assert(text::trimmed_end_of(t, '\\') == t);
    assert(text::trimmed_end_of(n, '\\') == t);
}

/// A normal form is never empty, ends in exactly one backslash and has no other
/// separator than backslashes; that of an ASCII path has no capital letter.
pub proof fn law_normal_form_ends_in_one_separator(path: Seq<char>)
    ensures
        normalized(path).len() > 0,
        normalized(path).last() == '\\',
        normalized(path).len() > 1 ==> normalized(path)[normalized(path).len() - 2] != '\\',
        !normalized(path).contains('/'),
        is_ascii_chars(path) ==> forall|i: int|
            0 <= i < normalized(path).len() ==> !('A' <= #[trigger] normalized(path)[i] <= 'Z'),
{
    let folded = text::replaced(lowered(text::trimmed(path)), '/', '\\');
    let t = text::trimmed_end_of(folded, '\\');
    lemma_trimmed_end_of(folded, '\\');
    assert forall|i: int| 0 <= i < normalized(path).len() implies normalized(path)[i] != '/' by {
        if i < t.len() {
            assert(t[i] == folded.subrange(0, t.len() as int)[i]);
        }
    }
    if is_ascii_chars(path) {
        lemma_trimmed_is_ascii(path);
        assert forall|i: int| 0 <= i < normalized(path).len() implies !('A'
            <= #[trigger] normalized(path)[i] <= 'Z') by {
            if i < t.len() {
                assert(t[i] == folded.subrange(0, t.len() as int)[i]);
            }
        }
    }
}

/// A character, but for its case and for which separator it is.
pub open spec fn folded(c: char) -> char {
    if c == '/' {
        '\\'
    } else {
        text::ascii_lower(c)
    }
}

/// Whether two texts are the same but for case and for which separators they
/// have.
pub open spec fn alike(a: Seq<char>, b: Seq<char>) -> bool {
    &&& a.len() == b.len()
    &&& forall|i: int| 0 <= i < a.len() ==> folded(#[trigger] a[i]) == folded(b[i])
}

/// Neither case nor which separators it has make a difference to the normal
/// form of an ASCII path.
pub proof fn law_case_and_separators_are_ignored(a: Seq<char>, b: Seq<char>)
    requires
        is_ascii_chars(a),
        alike(a, b),
    ensures
        normalized(a) == normalized(b),
{
    lemma_trimmed_start_of_alike(a, b);
    lemma_trimmed_end_of_alike(text::trimmed_start(a), text::trimmed_start(b));
    assert forall|i: int| 0 <= i < b.len() implies '\0' <= #[trigger] b[i] <= '\u{7f}' by {
        assert(folded(a[i]) == folded(b[i]));
    }
    lemma_trimmed_is_ascii(a);
    lemma_trimmed_is_ascii(b);
    let x = text::trimmed(a);
    let y = text::trimmed(b);
    assert forall|i: int| 0 <= i < x.len() implies text::replaced(lowered(x), '/', '\\')[i]
        == text::replaced(lowered(y), '/', '\\')[i] by {
        assert(folded(x[i]) == folded(y[i]));
    }
    assert(text::replaced(lowered(x), '/', '\\') =~= text::replaced(lowered(y), '/', '\\'));
}

/// Trimming keeps texts alike.
proof fn lemma_trimmed_start_of_alike(a: Seq<char>, b: Seq<char>)
    requires
        alike(a, b),
    ensures
        alike(text::trimmed_start(a), text::trimmed_start(b)),
    decreases a.len(),
{
    if a.len() > 0 {
        assert(folded(a[0]) == folded(b[0]));
        assert(text::white_space(a[0]) == text::white_space(b[0]));
        assert forall|i: int| 0 <= i < a.drop_first().len() implies folded(
            #[trigger] a.drop_first()[i],
        ) == folded(b.drop_first()[i]) by {
            assert(a.drop_first()[i] == a[i + 1]);
        }
        lemma_trimmed_start_of_alike(a.drop_first(), b.drop_first());
    }
}

/// Trimming keeps texts alike.
proof fn lemma_trimmed_end_of_alike(a: Seq<char>, b: Seq<char>)
    requires
        alike(a, b),
    ensures
        alike(text::trimmed_end(a), text::trimmed_end(b)),
    decreases a.len(),
{
    if a.len() > 0 {
        assert(folded(a[a.len() - 1]) == folded(b[a.len() - 1]));
        assert(text::white_space(a.last()) == text::white_space(b.last()));
        lemma_trimmed_end_of_alike(a.drop_last(), b.drop_last());
    }
}

/// White space around a path makes no difference to its normal form, whatever
/// characters the path has.
pub proof fn law_outer_white_space_is_ignored(
    before: Seq<char>,
    path: Seq<char>,
    after: Seq<char>,
)
    requires
        text::blank(before),
        text::blank(after),
    ensures
        normalized(before + path + after) == normalized(path),
        normalized(text::trimmed(path)) == normalized(path),
{
    text::lemma_trimmed_ignores_padding(before, path, after);
    text::lemma_trimmed_edges(path);
    assert(text::trimmed(text::trimmed(path)) == text::trimmed(path));
}

/// What is left of an ASCII text is ASCII, and is a part of it.
proof fn lemma_trimmed_is_ascii(s: Seq<char>)
    requires
        is_ascii_chars(s),
    ensures
        is_ascii_chars(text::trimmed(s)),
{
    lemma_trimmed_start_is_ascii(s);
    lemma_trimmed_end_is_ascii(text::trimmed_start(s));
}

proof fn lemma_trimmed_start_is_ascii(s: Seq<char>)
    requires
        is_ascii_chars(s),
    ensures
        is_ascii_chars(text::trimmed_start(s)),
    decreases s.len(),
{
    if s.len() > 0 {
        assert forall|i: int| 0 <= i < s.drop_first().len() implies '\0'
            <= #[trigger] s.drop_first()[i] <= '\u{7f}' by {
            assert(s.drop_first()[i] == s[i + 1]);
        }
        lemma_trimmed_start_is_ascii(s.drop_first());
    }
}

proof fn lemma_trimmed_end_is_ascii(s: Seq<char>)
    requires
        is_ascii_chars(s),
    ensures
        is_ascii_chars(text::trimmed_end(s)),
    decreases s.len(),
{
    if s.len() > 0 {
        lemma_trimmed_end_is_ascii(s.drop_last());
    }
}

/// A separator at the end makes no difference to the normal form of an ASCII
/// path that has no white space around it.
pub proof fn law_a_last_separator_is_ignored(path: Seq<char>, separator: char)
    requires
        is_ascii_chars(path),
        separator == '/' || separator == '\\',
        path.len() > 0 ==> !text::white_space(path.first()) && !text::white_space(path.last()),
    ensures
        normalized(path.push(separator)) == normalized(path),
{
    let longer = path.push(separator);
    assert(text::trimmed(path) == path);
    assert(text::trimmed(longer) == longer) by {
        assert(longer.first() == if path.len() > 0 {
            path.first()
        } else {
            separator
        });
        assert(longer.last() == separator);
    }
    assert(is_ascii_chars(longer));
    let low = lowered(path);
    assert(lowered(longer) =~= low.push(separator));
    law_kind_of_separators_is_ignored(low);
}

/// To normalize a path again changes nothing: so it is for every ASCII path, and
/// for any other whose normal form is lowercase and has no white space in front.
pub proof fn law_normalizing_twice_is_normalizing_once(path: Seq<char>)
    ensures
        is_ascii_chars(path) ==> normalized(normalized(path)) == normalized(path),
        lowered(normalized(path)) == normalized(path) && !text::white_space(
            normalized(path).first(),
        ) ==> normalized(normalized(path)) == normalized(path),
{
    let n = normalized(path);
    let low = lowered(text::trimmed(path));
    law_normal_form_ends_in_one_separator(path);
    law_folding_twice_is_folding_once(low);
    if is_ascii_chars(path) {
        let folded = text::replaced(low, '/', '\\');
        let t = text::trimmed_end_of(folded, '\\');
        lemma_trimmed_is_ascii(path);
        lemma_trimmed_end_of(folded, '\\');
        assert forall|i: int| 0 <= i < t.len() implies t[i] == folded[i] by {
            assert(t[i] == folded.subrange(0, t.len() as int)[i]);
        }
        // A trimmed path begins with something else than white space, and so
        // does its normal form.
        assert(!text::white_space(n.first())) by {
            if t.len() > 0 {
                text::lemma_trimmed_edges(path);
                assert(n.first() == folded[0]);
            }
        }
        assert(is_ascii_chars(n));
        assert(lowered(n) =~= n);
    }
    if !text::white_space(n.first()) {
        assert(text::trimmed(n) == n);
    }
}

// --- Hosts of a path ---------------------------------------------------------

/// A mount point in normal form, and the disk of its partition.
#[derive(Debug)]
pub struct MountRoot {
    pub disk_number: u32,
    pub path: String,
}

impl View for MountRoot {
    type V = (u32, Seq<char>);

    open spec fn view(&self) -> (u32, Seq<char>) {
        (self.disk_number, self.path@)
    }
}

/// The views of mount points.
pub open spec fn roots_view(roots: Seq<MountRoot>) -> Seq<(u32, Seq<char>)> {
    roots.map_values(|r: MountRoot| r@)
}

/// Whether a path lies at or below a mount point. The bare separator, which an
/// empty mount point normalizes to, holds nothing.
pub open spec fn claims(root: Seq<char>, needle: Seq<char>) -> bool {
    root.len() > 1 && root.is_prefix_of(needle)
}

/// Whether no mount point with a claim to `needle` is longer than `root`, which
/// has one.
pub open spec fn wins(
    roots: Seq<(u32, Seq<char>)>,
    needle: Seq<char>,
    root: (u32, Seq<char>),
) -> bool {
    &&& claims(root.1, needle)
    &&& forall|i: int|
        0 <= i < roots.len() && claims((#[trigger] roots[i]).1, needle) ==> roots[i].1.len()
            <= root.1.len()
}

/// The items of `s`, each where it occurs first.
pub open spec fn first_occurrences(s: Seq<u32>) -> Seq<u32>
    decreases s.len(),
{
    if s.len() == 0 {
        Seq::empty()
    } else {
        let front = first_occurrences(s.drop_last());
        if front.contains(s.last()) {
            front
        } else {
            front.push(s.last())
        }
    }
}

/// The disks that host `needle`: those of the longest mount point that claims
/// it, in order and each once.
pub open spec fn hosting(roots: Seq<(u32, Seq<char>)>, needle: Seq<char>) -> Seq<u32> {
    first_occurrences(
        roots.filter(|r: (u32, Seq<char>)| wins(roots, needle, r)).map_values(
            |r: (u32, Seq<char>)| r.0,
        ),
    )
}

/// The disks of the mount points that claim `needle` and are `len` long.
spec fn claiming(roots: Seq<(u32, Seq<char>)>, needle: Seq<char>, len: nat) -> Seq<u32> {
    roots.filter(|r: (u32, Seq<char>)| claims(r.1, needle) && r.1.len() == len).map_values(
        |r: (u32, Seq<char>)| r.0,
    )
}

/// One more mount point adds its disk, or does not.
proof fn lemma_claiming_step(
    roots: Seq<(u32, Seq<char>)>,
    needle: Seq<char>,
    len: nat,
    root: (u32, Seq<char>),
)
    ensures
        claiming(roots.push(root), needle, len) == if claims(root.1, needle) && root.1.len()
            == len {
            claiming(roots, needle, len).push(root.0)
        } else {
            claiming(roots, needle, len)
        },
{
    reveal(Seq::filter);
    assert(roots.push(root).drop_last() =~= roots);
    assert(claiming(roots.push(root), needle, len) =~= if claims(root.1, needle) && root.1.len()
        == len {
        claiming(roots, needle, len).push(root.0)
    } else {
        claiming(roots, needle, len)
    });
}

/// Where no mount point with a claim is as long as `len`, there is no disk.
proof fn lemma_claiming_none(roots: Seq<(u32, Seq<char>)>, needle: Seq<char>, len: nat)
    requires
        forall|i: int|
            0 <= i < roots.len() && claims((#[trigger] roots[i]).1, needle) ==> roots[i].1.len()
                < len,
    ensures
        claiming(roots, needle, len) == Seq::<u32>::empty(),
    decreases roots.len(),
{
    if roots.len() == 0 {
        reveal(Seq::filter);
        assert(claiming(roots, needle, len) =~= Seq::<u32>::empty());
    } else {
        lemma_claiming_none(roots.drop_last(), needle, len);
        lemma_claiming_step(roots.drop_last(), needle, len, roots.last());
        assert(roots.drop_last().push(roots.last()) =~= roots);
    }
}

/// Where `len` is the greatest length of a claim, the winners are the claims of
/// that length.
proof fn lemma_claiming_is_winning(roots: Seq<(u32, Seq<char>)>, needle: Seq<char>, len: nat)
    requires
        forall|i: int|
            0 <= i < roots.len() && claims((#[trigger] roots[i]).1, needle) ==> roots[i].1.len()
                <= len,
        len > 0 ==> exists|i: int|
            0 <= i < roots.len() && claims((#[trigger] roots[i]).1, needle) && roots[i].1.len()
                == len,
    ensures
        hosting(roots, needle) == first_occurrences(claiming(roots, needle, len)),
{
    let won = |r: (u32, Seq<char>)| wins(roots, needle, r);
    let claimed = |r: (u32, Seq<char>)| claims(r.1, needle) && r.1.len() == len;
    assert forall|i: int| 0 <= i < roots.len() implies won(#[trigger] roots[i]) == claimed(
        roots[i],
    ) by {
        if claims(roots[i].1, needle) {
            let top = choose|k: int|
                0 <= k < roots.len() && claims((#[trigger] roots[k]).1, needle)
                    && roots[k].1.len() == len;
            assert(claims(roots[top].1, needle));
        }
    }
    lemma_same_filter(roots, won, claimed);
}

/// Two conditions that agree on every item of a sequence filter it alike.
proof fn lemma_same_filter<A>(s: Seq<A>, p: spec_fn(A) -> bool, q: spec_fn(A) -> bool)
    requires
        forall|i: int| 0 <= i < s.len() ==> p(#[trigger] s[i]) == q(s[i]),
    ensures
        s.filter(p) == s.filter(q),
    decreases s.len(),
{
    reveal(Seq::filter);
    if s.len() > 0 {
        lemma_same_filter(s.drop_last(), p, q);
        assert(p(s[s.len() - 1]) == q(s[s.len() - 1]));
    }
}

/// Whether `v` holds `x`.
pub fn holds(v: &Vec<u32>, x: u32) -> (r: bool)
    ensures
        r == v@.contains(x),
{
    let mut i: usize = 0;
    while i < v.len()
        invariant
            i <= v.len(),
            forall|k: int| 0 <= k < i ==> v@[k] != x,
        decreases v.len() - i,
    {
        if v[i] == x {
            assert(v@[i as int] == x);
            return true;
        }
        i += 1;
    }
    false
}

/// The disks that host the path `needle`, which is in normal form, by the
/// longest mount point that claims it.
///
/// The longest wins, so that a volume mounted in a folder claims what is below
/// that folder and the volume around it does not. Every disk of that mount
/// point counts: a mirrored or striped volume puts the same mount point on a
/// partition of each of its disks, and each of them holds the data.
pub fn hosting_disks(needle: &str, roots: &[MountRoot]) -> (r: Vec<u32>)
    ensures
        r@ == hosting(roots_view(roots@), needle@),
{
    let ghost all = roots_view(roots@);
    let mut best: usize = 0;
    let mut disks: Vec<u32> = Vec::new();
    let mut i: usize = 0;
    proof {
        lemma_claiming_none(all.take(0), needle@, 0);
    }
    while i < roots.len()
        invariant
            i <= roots.len(),
            all == roots_view(roots@),
            disks@ == first_occurrences(claiming(all.take(i as int), needle@, best as nat)),
            forall|k: int|
                0 <= k < i && claims((#[trigger] all[k]).1, needle@) ==> all[k].1.len() <= best,
            best > 0 ==> exists|k: int|
                0 <= k < i && claims((#[trigger] all[k]).1, needle@) && all[k].1.len() == best,
        decreases roots.len() - i,
    {
        let root = roots[i].path.as_str();
        let ghost before = all.take(i as int);
        assert(all.take(i + 1) =~= before.push(all[i as int]));
        assert(all[i as int] == (roots@[i as int].disk_number, root@));
        let len: usize = text::chars_of(root).len();
        proof {
            lemma_claiming_step(before, needle@, best as nat, all[i as int]);
        }
        if len > 1 && text::starts_with(needle, root) {
            assert(claims(all[i as int].1, needle@));
            if len > best {
                proof {
                    assert forall|k: int|
                        0 <= k < before.len() && claims(
                            (#[trigger] before[k]).1,
                            needle@,
                        ) implies before[k].1.len() < len by {
                        assert(before[k] == all[k]);
                    }
                    lemma_claiming_none(before, needle@, len as nat);
                    lemma_claiming_step(before, needle@, len as nat, all[i as int]);
                }
                best = len;
                disks.clear();
            }
            if len == best {
                assert(disks@ == first_occurrences(claiming(before, needle@, best as nat)));
                let ghost longer = claiming(before, needle@, best as nat).push(
                    all[i as int].0,
                );
                assert(longer.drop_last() =~= claiming(before, needle@, best as nat));
                if !holds(&disks, roots[i].disk_number) {
                    disks.push(roots[i].disk_number);
                }
            }
        }
        i += 1;
    }
    proof {
        assert(all.take(i as int) =~= all);
        lemma_claiming_is_winning(all, needle@, best as nat);
    }
    disks
}

/// The mount points of one partition, in normal form.
pub open spec fn partition_roots(partition: Partition) -> Seq<(u32, Seq<char>)> {
    match partition.access_paths {
        Some(paths) => paths@.map_values(|p: String| (partition.disk_number, normalized(p@))),
        None => Seq::empty(),
    }
}

/// The mount points of all partitions, in normal form and in order.
pub open spec fn all_roots(partitions: Seq<Partition>) -> Seq<(u32, Seq<char>)>
    decreases partitions.len(),
{
    if partitions.len() == 0 {
        Seq::empty()
    } else {
        all_roots(partitions.drop_last()) + partition_roots(partitions.last())
    }
}

/// The mount points of all partitions, in normal form and in order.
pub fn mount_roots(partitions: &[Partition]) -> (r: Vec<MountRoot>)
    ensures
        roots_view(r@) == all_roots(partitions@),
{
    let mut out: Vec<MountRoot> = Vec::new();
    let mut i: usize = 0;
    assert(roots_view(out@) =~= all_roots(partitions@.take(0)));
    while i < partitions.len()
        invariant
            i <= partitions.len(),
            roots_view(out@) == all_roots(partitions@.take(i as int)),
        decreases partitions.len() - i,
    {
        let partition = &partitions[i];
        let ghost before = roots_view(out@);
        let ghost own = partition_roots(*partition);
        assert(partitions@.take(i + 1).drop_last() =~= partitions@.take(i as int));
        if let Some(paths) = &partition.access_paths {
            let mut j: usize = 0;
            assert(own.take(0) =~= Seq::empty());
            assert(before + own.take(0) =~= before);
            while j < paths.len()
                invariant
                    j <= paths.len(),
                    own == paths@.map_values(
                        |p: String| (partition.disk_number, normalized(p@)),
                    ),
                    roots_view(out@) == before + own.take(j as int),
                decreases paths.len() - j,
            {
                let ghost so_far = out@;
                let path = normalize_path(paths[j].as_str());
                out.push(MountRoot { disk_number: partition.disk_number, path });
                assert(roots_view(out@) =~= roots_view(so_far).push(own[j as int]));
                assert(own.take(j + 1) =~= own.take(j as int).push(own[j as int]));
                assert(roots_view(out@) =~= before + own.take(j + 1));
                j += 1;
            }
            assert(own.take(j as int) =~= own);
        } else {
            assert(before + own =~= before);
        }
        i += 1;
    }
    assert(partitions@.take(i as int) =~= partitions@);
    out
}

/// The disks that host `path`, given the partitions of all disks.
pub open spec fn resolved(path: Seq<char>, partitions: Seq<Partition>) -> Seq<u32> {
    hosting(all_roots(partitions), normalized(path))
}

/// The physical disks that host `path`. An empty result means that no partition
/// claims the path: that is unknown, and never "not on this disk".
///
/// For a volume of a storage pool, the partition carries the number of the
/// virtual disk, and the physical disks of the pool are not found.
pub fn resolve_path_to_disks(path: &str, partitions: &[Partition]) -> (r: Vec<u32>)
    ensures
        r@ == resolved(path@, partitions@),
{
    let needle = normalize_path(path);
    let roots = mount_roots(partitions);
    hosting_disks(needle.as_str(), roots.as_slice())
}

// --- Laws of the resolution --------------------------------------------------

/// First occurrences hold what the sequence holds, each once.
proof fn lemma_first_occurrences(s: Seq<u32>)
    ensures
        first_occurrences(s).no_duplicates(),
        forall|x: u32| first_occurrences(s).contains(x) <==> s.contains(x),
    decreases s.len(),
{
    if s.len() > 0 {
        let rest = s.drop_last();
        let front = first_occurrences(rest);
        lemma_first_occurrences(rest);
        assert forall|x: u32| first_occurrences(s).contains(x) <==> s.contains(x) by {
            assert(s =~= rest.push(s.last()));
            if rest.contains(x) {
                let k = choose|k: int| 0 <= k < rest.len() && rest[k] == x;
                assert(s[k] == x);
                assert(front.contains(x));
                let m = choose|m: int| 0 <= m < front.len() && front[m] == x;
                assert(first_occurrences(s)[m] == x);
            }
            if x == s.last() {
                assert(s[s.len() - 1] == x);
                if !front.contains(x) {
                    assert(first_occurrences(s)[front.len() as int] == x);
                }
            }
            if s.contains(x) {
                let k = choose|k: int| 0 <= k < s.len() && s[k] == x;
                if k < rest.len() {
                    assert(rest[k] == x);
                }
            }
            if first_occurrences(s).contains(x) && x != s.last() {
                let m = choose|m: int|
                    0 <= m < first_occurrences(s).len() && first_occurrences(s)[m] == x;
                assert(front[m] == x);
            }
        }
    }
}

/// A disk hosts a path exactly when one of its mount points claims the path and
/// no mount point that claims it is longer; so every disk of the longest one is
/// named. Each is named once.
pub proof fn law_every_disk_of_the_longest_claim_hosts(
    roots: Seq<(u32, Seq<char>)>,
    needle: Seq<char>,
)
    ensures
        hosting(roots, needle).no_duplicates(),
        forall|disk: u32| #[trigger]
            hosting(roots, needle).contains(disk) <==> exists|i: int|
                0 <= i < roots.len() && (#[trigger] roots[i]).0 == disk && wins(
                    roots,
                    needle,
                    roots[i],
                ),
{
    let pred = |r: (u32, Seq<char>)| wins(roots, needle, r);
    let won = roots.filter(pred);
    let disks = won.map_values(|r: (u32, Seq<char>)| r.0);
    lemma_first_occurrences(disks);
    assert forall|disk: u32| #[trigger]
        hosting(roots, needle).contains(disk) <==> exists|i: int|
            0 <= i < roots.len() && (#[trigger] roots[i]).0 == disk && wins(
                roots,
                needle,
                roots[i],
            ) by {
        assert(hosting(roots, needle) == first_occurrences(disks));
        assert(first_occurrences(disks).contains(disk) <==> disks.contains(disk));
        if hosting(roots, needle).contains(disk) {
            let k = choose|k: int| 0 <= k < disks.len() && disks[k] == disk;
            roots.lemma_filter_pred(pred, k);
            assert(won.contains(won[k]));
            roots.lemma_filter_contains_rev(pred, won[k]);
            let i = choose|i: int| 0 <= i < roots.len() && roots[i] == won[k];
            assert(roots[i].0 == disk && wins(roots, needle, roots[i]));
        }
        if exists|i: int|
            0 <= i < roots.len() && (#[trigger] roots[i]).0 == disk && wins(
                roots,
                needle,
                roots[i],
            ) {
            let i = choose|i: int|
                0 <= i < roots.len() && (#[trigger] roots[i]).0 == disk && wins(
                    roots,
                    needle,
                    roots[i],
                );
            assert(pred(roots[i]));
            roots.lemma_filter_contains(pred, i);
            let k = choose|k: int| 0 <= k < won.len() && won[k] == roots[i];
            assert(disks[k] == disk);
        }
    }
}

/// There is a longest claim wherever there is a claim.
proof fn lemma_some_claim_wins(roots: Seq<(u32, Seq<char>)>, needle: Seq<char>, i: int) -> (top:
    int)
    requires
        0 <= i < roots.len(),
        claims(roots[i].1, needle),
    ensures
        0 <= top < roots.len(),
        wins(roots, needle, roots[top]),
    decreases needle.len() - roots[i].1.len(),
{
    if wins(roots, needle, roots[i]) {
        i
    } else {
        let longer = choose|k: int|
            0 <= k < roots.len() && claims((#[trigger] roots[k]).1, needle) && roots[k].1.len()
                > roots[i].1.len();
        lemma_some_claim_wins(roots, needle, longer)
    }
}

/// No disk is named exactly when no mount point claims the path.
pub proof fn law_no_host_means_no_claim(roots: Seq<(u32, Seq<char>)>, needle: Seq<char>)
    ensures
        hosting(roots, needle).len() == 0 <==> forall|i: int|
            0 <= i < roots.len() ==> !claims((#[trigger] roots[i]).1, needle),
{
    law_every_disk_of_the_longest_claim_hosts(roots, needle);
    if hosting(roots, needle).len() > 0 {
        assert(hosting(roots, needle).contains(hosting(roots, needle)[0]));
    }
    if exists|i: int| 0 <= i < roots.len() && claims((#[trigger] roots[i]).1, needle) {
        let i = choose|i: int| 0 <= i < roots.len() && claims((#[trigger] roots[i]).1, needle);
        let top = lemma_some_claim_wins(roots, needle, i);
        assert(hosting(roots, needle).contains(roots[top].0));
    }
}

/// How a path is written makes no difference to the disks that host it: white
/// space around it never does; neither do the case and the kind of separators of
/// an ASCII path; and of any other path nothing counts but its lowercase form,
/// with all separators alike.
pub proof fn law_spelling_does_not_change_the_hosts(
    before: Seq<char>,
    path: Seq<char>,
    after: Seq<char>,
    other: Seq<char>,
    partitions: Seq<Partition>,
)
    requires
        text::blank(before),
        text::blank(after),
    ensures
        resolved(before + path + after, partitions) == resolved(path, partitions),
        resolved(text::trimmed(path), partitions) == resolved(path, partitions),
        is_ascii_chars(path) && alike(path, other) ==> resolved(other, partitions) == resolved(
            path,
            partitions,
        ),
        text::replaced(lowered(text::trimmed(path)), '\\', '/') == text::replaced(
            lowered(text::trimmed(other)),
            '\\',
            '/',
        ) ==> resolved(other, partitions) == resolved(path, partitions),
{
    law_kind_of_separators_is_ignored(lowered(text::trimmed(path)));
    law_kind_of_separators_is_ignored(lowered(text::trimmed(other)));
    law_outer_white_space_is_ignored(before, path, after);
    if is_ascii_chars(path) && alike(path, other) {
        law_case_and_separators_are_ignored(path, other);
    }
}

/// Capital letters throughout, or one kind of separator throughout, are such
/// spellings.
pub proof fn law_capitals_and_slashes_are_alike(path: Seq<char>)
    ensures
        alike(path, path.map_values(|c: char| text::ascii_upper(c))),
        alike(path, path.map_values(|c: char| text::ascii_lower(c))),
        alike(path, text::replaced(path, '\\', '/')),
        alike(path, text::replaced(path, '/', '\\')),
{
}

/// A mount point claims whole path components only: a path that it claims goes
/// on, or ends, right behind a separator.
pub proof fn law_claims_end_at_a_separator(root: Seq<char>, path: Seq<char>)
    requires
        claims(normalized(root), normalized(path)),
    ensures
        normalized(path)[normalized(root).len() - 1] == '\\',
{
    law_normal_form_ends_in_one_separator(root);
    let n = normalized(root).len() as int;
    assert(normalized(path).subrange(0, n)[n - 1] == normalized(path)[n - 1]);
}

/// The mount points that a resolution uses are the access paths of the
/// partitions, all of them and no others: access path number `a` of partition
/// number `p` is among them in normal form, with the disk of its partition,
/// whatever else the partition has; and mount point number `k` is such a one,
/// which the result names.
pub proof fn law_mount_points_are_the_access_paths(
    partitions: Seq<Partition>,
    p: int,
    a: int,
    k: int,
) -> (origin: (int, int))
    ensures
        0 <= p < partitions.len() && (partitions[p].access_paths matches Some(paths) && 0 <= a
            < paths@.len()) ==> all_roots(partitions).contains(
            (
                partitions[p].disk_number,
                normalized(partitions[p].access_paths->Some_0@[a]@),
            ),
        ),
        0 <= k < all_roots(partitions).len() ==> {
            &&& 0 <= origin.0 < partitions.len()
            &&& partitions[origin.0].access_paths matches Some(paths)
            &&& 0 <= origin.1 < paths@.len()
            &&& all_roots(partitions)[k] == (
                partitions[origin.0].disk_number,
                normalized(paths@[origin.1]@),
            )
        },
    decreases partitions.len(),
{
    if partitions.len() == 0 {
        (0, 0)
    } else {
        let front = partitions.drop_last();
        let own = partition_roots(partitions.last());
        let before = all_roots(front);
        let all = all_roots(partitions);
        let inner = law_mount_points_are_the_access_paths(front, p, a, k);
        if 0 <= p < partitions.len() && (partitions[p].access_paths matches Some(paths) && 0 <= a
            < paths@.len()) {
            let x = (
                partitions[p].disk_number,
                normalized(partitions[p].access_paths->Some_0@[a]@),
            );
            if p < front.len() {
                let j = choose|j: int| 0 <= j < before.len() && before[j] == x;
                assert(all[j] == x);
            } else {
                assert(own[a] == x);
                assert(all[before.len() + a] == x);
            }
        }
        if k < before.len() {
            inner
        } else {
            (partitions.len() - 1, k - before.len())
        }
    }
}

/// The number of mount points is that of the access paths, and they stand in the
/// order of the partitions and of the access paths of each.
pub proof fn law_mount_points_keep_their_order(partitions: Seq<Partition>, more: Partition)
    ensures
        all_roots(partitions).is_prefix_of(all_roots(partitions.push(more))),
        all_roots(partitions.push(more)).len() == all_roots(partitions).len() + match more.access_paths {
            Some(paths) => paths@.len(),
            None => 0,
        },
        more.access_paths matches Some(paths) ==> forall|a: int|
            0 <= a < paths@.len() ==> all_roots(partitions.push(more))[all_roots(partitions).len()
                + a] == (more.disk_number, normalized((#[trigger] paths@[a])@)),
{
    let longer = partitions.push(more);
    assert(longer.drop_last() =~= partitions);
    let n = all_roots(partitions).len() as int;
    assert(all_roots(longer).subrange(0, n) =~= all_roots(partitions));
}

/// A disk hosts a path exactly when one of its partitions has an access path of
/// which this holds, in normal forms: it is more than a bare separator, the path
/// begins with it, and no access path of any partition that the path begins with
/// is longer. The first clause takes such an access path; the second names one
/// for a disk that hosts.
pub proof fn law_hosts_are_the_disks_of_the_longest_access_path(
    path: Seq<char>,
    partitions: Seq<Partition>,
    p: int,
    a: int,
    disk: u32,
) -> (origin: (int, int))
    ensures
        0 <= p < partitions.len() && (partitions[p].access_paths matches Some(paths) && 0 <= a
            < paths@.len() && normalized(paths@[a]@).len() > 1 && normalized(
            paths@[a]@,
        ).is_prefix_of(normalized(path)) && (forall|q: int, b: int|
            #![trigger partitions[q].access_paths->Some_0@[b]]
            0 <= q < partitions.len() && (partitions[q].access_paths matches Some(others) && 0 <= b
                < others@.len()) && normalized(
                partitions[q].access_paths->Some_0@[b]@,
            ).is_prefix_of(normalized(path)) ==> normalized(
                partitions[q].access_paths->Some_0@[b]@,
            ).len() <= normalized(paths@[a]@).len())) ==> resolved(path, partitions).contains(
            partitions[p].disk_number,
        ),
        resolved(path, partitions).contains(disk) ==> {
            &&& 0 <= origin.0 < partitions.len()
            &&& partitions[origin.0].disk_number == disk
            &&& partitions[origin.0].access_paths matches Some(paths)
            &&& 0 <= origin.1 < paths@.len()
            &&& normalized(paths@[origin.1]@).len() > 1
            &&& normalized(paths@[origin.1]@).is_prefix_of(normalized(path))
            &&& forall|q: int, b: int|
                #![trigger partitions[q].access_paths->Some_0@[b]]
                0 <= q < partitions.len() && (partitions[q].access_paths matches Some(others) && 0
                    <= b < others@.len()) && normalized(
                    partitions[q].access_paths->Some_0@[b]@,
                ).is_prefix_of(normalized(path)) ==> normalized(
                    partitions[q].access_paths->Some_0@[b]@,
                ).len() <= normalized(paths@[origin.1]@).len()
        },
{
    let roots = all_roots(partitions);
    let needle = normalized(path);
    law_every_disk_of_the_longest_claim_hosts(roots, needle);
    if 0 <= p < partitions.len() && (partitions[p].access_paths matches Some(paths) && 0 <= a
        < paths@.len() && normalized(paths@[a]@).len() > 1 && normalized(
        paths@[a]@,
    ).is_prefix_of(needle) && (forall|q: int, b: int|
        #![trigger partitions[q].access_paths->Some_0@[b]]
        0 <= q < partitions.len() && (partitions[q].access_paths matches Some(others) && 0 <= b
            < others@.len()) && normalized(
            partitions[q].access_paths->Some_0@[b]@,
        ).is_prefix_of(needle) ==> normalized(partitions[q].access_paths->Some_0@[b]@).len()
            <= normalized(paths@[a]@).len())) {
        let x = (partitions[p].disk_number, normalized(partitions[p].access_paths->Some_0@[a]@));
        law_mount_points_are_the_access_paths(partitions, p, a, 0);
        let k = choose|k: int| 0 <= k < roots.len() && roots[k] == x;
        assert forall|i: int|
            0 <= i < roots.len() && claims((#[trigger] roots[i]).1, needle) implies roots[i].1.len()
            <= x.1.len() by {
            let o = law_mount_points_are_the_access_paths(partitions, 0, 0, i);
            assert(roots[i].1 == normalized(partitions[o.0].access_paths->Some_0@[o.1]@));
        }
        assert(wins(roots, needle, roots[k]));
        assert(roots[k].0 == partitions[p].disk_number);
    }
    if resolved(path, partitions).contains(disk) {
        let i = choose|i: int|
            0 <= i < roots.len() && (#[trigger] roots[i]).0 == disk && wins(
                roots,
                needle,
                roots[i],
            );
        let o = law_mount_points_are_the_access_paths(partitions, 0, 0, i);
        assert forall|q: int, b: int|
            #![trigger partitions[q].access_paths->Some_0@[b]]
            0 <= q < partitions.len() && (partitions[q].access_paths matches Some(others) && 0 <= b
                < others@.len()) && normalized(
                partitions[q].access_paths->Some_0@[b]@,
            ).is_prefix_of(needle) implies normalized(
            partitions[q].access_paths->Some_0@[b]@,
        ).len() <= roots[i].1.len() by {
            let y = (
                partitions[q].disk_number,
                normalized(partitions[q].access_paths->Some_0@[b]@),
            );
            law_mount_points_are_the_access_paths(partitions, q, b, 0);
            let m = choose|m: int| 0 <= m < roots.len() && roots[m] == y;
            if y.1.len() > 1 {
                assert(claims(roots[m].1, needle));
            }
        }
        o
    } else {
        (0, 0)
    }
}

/// No disk hosts a path exactly when the path begins with no access path that is
/// more than a bare separator, in normal forms.
pub proof fn law_no_host_means_no_access_path(
    path: Seq<char>,
    partitions: Seq<Partition>,
    p: int,
    a: int,
)
    ensures
        0 <= p < partitions.len() && (partitions[p].access_paths matches Some(paths) && 0 <= a
            < paths@.len() && normalized(paths@[a]@).len() > 1 && normalized(
            paths@[a]@,
        ).is_prefix_of(normalized(path))) ==> resolved(path, partitions).len() > 0,
{
    let roots = all_roots(partitions);
    law_no_host_means_no_claim(roots, normalized(path));
    if 0 <= p < partitions.len() && (partitions[p].access_paths matches Some(paths) && 0 <= a
        < paths@.len() && normalized(paths@[a]@).len() > 1 && normalized(
        paths@[a]@,
    ).is_prefix_of(normalized(path))) {
        let x = (partitions[p].disk_number, normalized(partitions[p].access_paths->Some_0@[a]@));
        law_mount_points_are_the_access_paths(partitions, p, a, 0);
        let k = choose|k: int| 0 <= k < roots.len() && roots[k] == x;
        assert(claims(roots[k].1, normalized(path)));
    }
}

/// The hosts of a path stand in the order of the partitions, each where its disk
/// comes first: of two hosts, the one that stands first has an access path of
/// the winning kind before any of the other's.
pub proof fn law_hosts_keep_the_order_of_the_mount_points(
    roots: Seq<(u32, Seq<char>)>,
    needle: Seq<char>,
    x: int,
    y: int,
    j: int,
) -> (i: int)
    requires
        0 <= x < y < hosting(roots, needle).len(),
        0 <= j < roots.len(),
        roots[j].0 == hosting(roots, needle)[y],
        wins(roots, needle, roots[j]),
    ensures
        0 <= i < j,
        roots[i].0 == hosting(roots, needle)[x],
        wins(roots, needle, roots[i]),
{
    let pred = |r: (u32, Seq<char>)| wins(roots, needle, r);
    let at = lemma_filter_keeps_order(roots, pred, j);
    let won = roots.filter(pred);
    let disks = won.map_values(|r: (u32, Seq<char>)| r.0);
    assert(disks[at] == hosting(roots, needle)[y]);
    let m = lemma_first_occurrences_keep_order(disks, x, y, at);
    lemma_filter_origin(roots, pred, j, at, m)
}

/// An item that a filter keeps stands in the result, behind those kept before.
proof fn lemma_filter_keeps_order<A>(s: Seq<A>, pred: spec_fn(A) -> bool, j: int) -> (at: int)
    requires
        0 <= j < s.len(),
        pred(s[j]),
    ensures
        at == s.take(j).filter(pred).len(),
        at < s.filter(pred).len(),
        s.filter(pred)[at] == s[j],
{
    let front = s.take(j);
    let back = s.skip(j);
    assert(front + back =~= s);
    Seq::filter_distributes_over_add(front, back, pred);
    assert(seq![s[j]] + s.skip(j + 1) =~= back);
    Seq::filter_distributes_over_add(seq![s[j]], s.skip(j + 1), pred);
    assert(seq![s[j]].filter(pred) =~= seq![s[j]]) by {
        reveal(Seq::filter);
        assert(seq![s[j]].drop_last() =~= Seq::<A>::empty());
        assert(seq![s[j]].last() == s[j]);
        assert(Seq::<A>::empty().filter(pred) =~= Seq::<A>::empty());
    }
    front.filter(pred).len() as int
}

/// What a filter keeps before an item comes from before that item.
proof fn lemma_filter_origin<A>(
    s: Seq<A>,
    pred: spec_fn(A) -> bool,
    j: int,
    at: int,
    m: int,
) -> (i: int)
    requires
        0 <= j < s.len(),
        at == s.take(j).filter(pred).len(),
        0 <= m < at,
    ensures
        0 <= i < j,
        s[i] == s.filter(pred)[m],
        pred(s[i]),
{
    let front = s.take(j);
    assert(front + s.skip(j) =~= s);
    Seq::filter_distributes_over_add(front, s.skip(j), pred);
    let kept = front.filter(pred);
    assert(kept[m] == s.filter(pred)[m]);
    front.lemma_filter_pred(pred, m);
    assert(kept.contains(kept[m]));
    front.lemma_filter_contains_rev(pred, kept[m]);
    choose|i: int| 0 <= i < front.len() && front[i] == kept[m]
}

/// Of two first occurrences, the one that stands first occurs before the other.
proof fn lemma_first_occurrences_keep_order(s: Seq<u32>, x: int, y: int, j: int) -> (m: int)
    requires
        0 <= x < y < first_occurrences(s).len(),
        0 <= j < s.len(),
        s[j] == first_occurrences(s)[y],
    ensures
        0 <= m < j,
        s[m] == first_occurrences(s)[x],
    decreases s.len(),
{
    let rest = s.drop_last();
    let front = first_occurrences(rest);
    lemma_first_occurrences(rest);
    if y < front.len() {
        if j < rest.len() {
            lemma_first_occurrences_keep_order(rest, x, y, j)
        } else {
            assert(front.contains(front[y]));
            assert(rest.contains(front[y]));
            let k = choose|k: int| 0 <= k < rest.len() && rest[k] == front[y];
            lemma_first_occurrences_keep_order(rest, x, y, k)
        }
    } else {
        assert(!front.contains(s.last()));
        if j < rest.len() {
            assert(rest.contains(rest[j]));
            assert(front.contains(s.last()));
        }
        assert(front.contains(front[x]));
        assert(rest.contains(front[x]));
        let m = choose|m: int| 0 <= m < rest.len() && rest[m] == front[x];
        m
    }
}

/// The normal form of an ASCII path without white space around it that does not
/// end in a separator: the same characters with capital letters made small and
/// slashes made backslashes, one by one, and a backslash at the end.
pub proof fn law_normal_form_of_ascii_paths(path: Seq<char>, i: int)
    requires
        is_ascii_chars(path),
        path.len() > 0,
        !text::white_space(path.first()),
        !text::white_space(path.last()),
        path.last() != '/',
        path.last() != '\\',
    ensures
        normalized(path).len() == path.len() + 1,
        normalized(path)[path.len() as int] == '\\',
        0 <= i < path.len() ==> {
            &&& path[i] == '/' ==> normalized(path)[i] == '\\'
            &&& 'A' <= path[i] <= 'Z' ==> normalized(path)[i] as int == path[i] as int + 32
            &&& path[i] != '/' && !('A' <= path[i] <= 'Z') ==> normalized(path)[i] == path[i]
        },
{
    assert(text::trimmed(path) == path);
    let low = lowered(path);
    let f = text::replaced(low, '/', '\\');
    assert(f.last() != '\\') by {
        assert(low[low.len() - 1] == text::ascii_lower(path[path.len() - 1]));
    }
    assert(text::trimmed_end_of(f, '\\') == f);
}

/// The normal form of any path, character by character. With `low` for the path
/// without white space around it, in the lowercase form that std gives it: the
/// normal form is `low` with backslashes for slashes, up to the separators that end
/// `low`, and then one backslash.
pub proof fn law_normal_form_character_by_character(path: Seq<char>, low: Seq<char>, i: int)
    requires
        is_ascii_chars(text::trimmed(path)) ==> low.len() == text::trimmed(path).len() && forall|
            k: int,
        |
            0 <= k < low.len() ==> #[trigger] low[k] == text::ascii_lower(text::trimmed(path)[k]),
        !is_ascii_chars(text::trimmed(path)) ==> low == text::unicode_lowercase(
            text::trimmed(path),
        ),
    ensures
        ({
            let n = normalized(path);
            &&& 1 <= n.len() <= low.len() + 1
            &&& n[n.len() - 1] == '\\'
            &&& n.len() > 1 ==> n[n.len() - 2] != '\\'
            &&& 0 <= i < n.len() - 1 && low[i] == '/' ==> n[i] == '\\'
            &&& 0 <= i < n.len() - 1 && low[i] != '/' ==> n[i] == low[i]
            &&& n.len() - 1 <= i < low.len() ==> low[i] == '/' || low[i] == '\\'
        }),
{
    assert(low =~= lowered(text::trimmed(path)));
    let folded = text::replaced(low, '/', '\\');
    let m = text::law_only_the_character_is_trimmed(folded, '\\');
    let t = text::trimmed_end_of(folded, '\\');
    if 0 <= i < t.len() {
        assert(t[i] == folded[i]);
    } else if t.len() <= i < low.len() {
        assert(folded[i] == Seq::new(m, |k: int| '\\')[i - t.len()]);
    }
}

} // verus!
