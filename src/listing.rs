//! Directory listings: the entry record and the listing order, directories
//! first, then by name without regard to case.
use crate::numerals::{digit_char, digit_text};
use vstd::prelude::*;
use vstd::multiset::Multiset;
use vstd::string::*;
use vstd::utf8::char_u32_cast;
use vstd::seq_lib::{group_to_multiset_ensures, to_multiset_build, to_multiset_insert};
use vstd::multiset::{group_multiset_axioms, group_multiset_properties};

verus! {

/// One entry of a directory listing.
#[derive(Clone, Debug)]
pub struct FileInfo {
    pub name: String,
    pub path: String,
    pub is_dir: bool,
    /// Length in bytes; zero for a directory.
    pub size: u64,
    /// Modification time in seconds since the Unix epoch.
    pub modified: i64,
    /// Permission bits in octal, without leading zeros.
    pub permissions: String,
}

/// What `str::to_lowercase` makes of a text; it depends on the text alone.
pub uninterp spec fn lower_of(s: Seq<char>) -> Seq<char>;

/// Relies on `str::to_lowercase`: the lower-case form of a name, used as the
/// name's sort key.
#[verifier::external_body]
fn lowercase(s: &str) -> (r: String)
    ensures
        r@ == lower_of(s@),
{
    s.to_lowercase()
}

/// First position at or after `i` where `a` and `b` differ, or where one ends.
pub open spec fn diff_from(a: Seq<char>, b: Seq<char>, i: int) -> int
    decreases a.len() - i,
{
    if 0 <= i < a.len() && i < b.len() && a[i] == b[i] {
        diff_from(a, b, i + 1)
    } else {
        i
    }
}

/// `a` comes strictly before `b` in lexicographic order of code points.
pub open spec fn key_lt(a: Seq<char>, b: Seq<char>) -> bool {
    let d = diff_from(a, b, 0);
    d < b.len() && (d == a.len() || (a[d] as u32) < (b[d] as u32))
}

/// An entry `(d1, k1)` goes strictly before `(d2, k2)`: directories before
/// files, then by key.
pub open spec fn before(d1: bool, k1: Seq<char>, d2: bool, k2: Seq<char>) -> bool {
    (d1 && !d2) || (d1 == d2 && key_lt(k1, k2))
}

/// Each entry beside its key.
pub open spec fn keyed(infos: Seq<FileInfo>, keys: Seq<String>) -> Seq<(FileInfo, Seq<char>)> {
    Seq::new(infos.len(), |i: int| (infos[i], keys[i]@))
}

/// No entry goes strictly before an earlier one.
pub open spec fn in_listing_order(infos: Seq<FileInfo>, keys: Seq<String>) -> bool {
    forall|i: int, j: int|
        0 <= i < j < infos.len() ==> !before(
            #[trigger] infos[j].is_dir,
            keys[j]@,
            #[trigger] infos[i].is_dir,
            keys[i]@,
        )
}

/// Each entry beside the lower-case form of its name.
pub open spec fn by_lower_name(infos: Seq<FileInfo>) -> Seq<(FileInfo, Seq<char>)> {
    Seq::new(infos.len(), |i: int| (infos[i], lower_of(infos[i].name@)))
}

proof fn lemma_diff_from(a: Seq<char>, b: Seq<char>, i: int)
    requires
        0 <= i <= a.len(),
        i <= b.len(),
    ensures
        i <= diff_from(a, b, i) <= a.len(),
        diff_from(a, b, i) <= b.len(),
        forall|k: int| i <= k < diff_from(a, b, i) ==> a[k] == b[k],
        diff_from(a, b, i) < a.len() && diff_from(a, b, i) < b.len() ==> a[diff_from(a, b, i)]
            != b[diff_from(a, b, i)],
    decreases a.len() - i,
{
    if i < a.len() && i < b.len() && a[i] == b[i] {
        lemma_diff_from(a, b, i + 1);
    }
}

proof fn lemma_key_lt_transitive(a: Seq<char>, b: Seq<char>, c: Seq<char>)
    requires
        key_lt(a, b),
        key_lt(b, c),
    ensures
        key_lt(a, c),
{
    lemma_diff_from(a, b, 0);
    lemma_diff_from(b, c, 0);
    lemma_diff_from(a, c, 0);
    let d1 = diff_from(a, b, 0);
    let d2 = diff_from(b, c, 0);
    let d3 = diff_from(a, c, 0);
    if d1 < d2 {
        assert(d3 == d1) by {
            if d3 < d1 {
                assert(a[d3] == b[d3] && b[d3] == c[d3]);
            }
            if d3 > d1 {
                assert(a[d1] == c[d1] && b[d1] == c[d1]);
            }
        }
    } else if d2 < d1 {
        assert(d3 == d2) by {
            if d3 < d2 {
                assert(a[d3] == b[d3] && b[d3] == c[d3]);
            }
            if d3 > d2 {
                assert(a[d2] == c[d2] && a[d2] == b[d2]);
            }
        }
    } else {
        assert(d3 >= d1) by {
            if d3 < d1 {
                assert(a[d3] == b[d3] && b[d3] == c[d3]);
            }
        }
        if d3 > d1 {
            assert(a[d1] == c[d1]);
            assert((a[d1] as u32) < (b[d1] as u32));
            assert((b[d1] as u32) < (c[d1] as u32));
        }
    }
}

proof fn lemma_before_transitive(
    d1: bool,
    k1: Seq<char>,
    d2: bool,
    k2: Seq<char>,
    d3: bool,
    k3: Seq<char>,
)
    requires
        before(d1, k1, d2, k2),
        before(d2, k2, d3, k3),
    ensures
        before(d1, k1, d3, k3),
{
    if d1 == d2 && d2 == d3 {
        lemma_key_lt_transitive(k1, k2, k3);
    }
}

/// Whether `a` comes strictly before `b` in lexicographic order.
pub fn key_less(a: &str, b: &str) -> (r: bool)
    ensures
        r == key_lt(a@, b@),
{
    let alen = a.unicode_len();
    let blen = b.unicode_len();
    let mut i: usize = 0;
    while i < alen && i < blen && a.get_char(i) == b.get_char(i)
        invariant
            alen == a@.len(),
            blen == b@.len(),
            i <= alen,
            i <= blen,
            diff_from(a@, b@, i as int) == diff_from(a@, b@, 0),
        decreases alen - i,
    {
        i = i + 1;
    }
    if i >= blen {
        return false;
    }
    if i == alen {
        return true;
    }
    (a.get_char(i) as u32) < (b.get_char(i) as u32)
}

/// Whether the entry `(d1, k1)` goes strictly before `(d2, k2)`.
pub fn goes_before(d1: bool, k1: &str, d2: bool, k2: &str) -> (r: bool)
    ensures
        r == before(d1, k1@, d2, k2@),
{
    if d1 != d2 {
        d1
    } else {
        key_less(k1, k2)
    }
}

/// Puts `infos` in listing order by the given keys, `keys[i]` being the key
/// of `infos[i]`; the keys come back beside their entries.
pub fn sort_by_keys(infos: Vec<FileInfo>, keys: Vec<String>) -> (r: (Vec<FileInfo>, Vec<String>))
    requires
        infos@.len() == keys@.len(),
    ensures
        r.0@.len() == infos@.len(),
        r.1@.len() == infos@.len(),
        keyed(r.0@, r.1@).to_multiset() == keyed(infos@, keys@).to_multiset(),
        in_listing_order(r.0@, r.1@),
{
    broadcast use group_to_multiset_ensures, group_multiset_axioms, group_multiset_properties;

    let ghost all = keyed(infos@, keys@);
    let mut infos = infos;
    let mut keys = keys;
    let mut out_infos: Vec<FileInfo> = Vec::new();
    let mut out_keys: Vec<String> = Vec::new();
    assert(keyed(out_infos@, out_keys@) =~= Seq::empty());
    assert(keyed(out_infos@, out_keys@).to_multiset().len() == 0);
    assert(keyed(out_infos@, out_keys@).to_multiset() =~= Multiset::empty());
    assert(keyed(infos@, keys@).to_multiset().add(keyed(out_infos@, out_keys@).to_multiset())
        =~= all.to_multiset());
    while infos.len() > 0
        invariant
            infos@.len() == keys@.len(),
            out_infos@.len() == out_keys@.len(),
            infos@.len() + out_infos@.len() == all.len(),
            keyed(infos@, keys@).to_multiset().add(keyed(out_infos@, out_keys@).to_multiset())
                == all.to_multiset(),
            in_listing_order(out_infos@, out_keys@),
        decreases infos@.len(),
    {
        let ghost before_infos = infos@;
        let ghost before_keys = keys@;
        let info = match infos.pop() {
            Some(x) => x,
            None => {
                assert(false);
                return (out_infos, out_keys);
            },
        };
        let key = match keys.pop() {
            Some(x) => x,
            None => {
                assert(false);
                return (out_infos, out_keys);
            },
        };
        let ghost item = (info, key@);
        assert(keyed(before_infos, before_keys) =~= keyed(infos@, keys@).push(item));
        proof {
            to_multiset_build(keyed(infos@, keys@), item);
        }

        let mut pos: usize = 0;
        while pos < out_infos.len() && !goes_before(
            info.is_dir,
            key.as_str(),
            out_infos[pos].is_dir,
            out_keys[pos].as_str(),
        )
            invariant
                out_infos@.len() == out_keys@.len(),
                pos <= out_infos@.len(),
                forall|k: int|
                    0 <= k < pos ==> !before(
                        info.is_dir,
                        key@,
                        #[trigger] out_infos@[k].is_dir,
                        out_keys@[k]@,
                    ),
            decreases out_infos@.len() - pos,
        {
            pos = pos + 1;
        }
        let ghost old_infos = out_infos@;
        let ghost old_keys = out_keys@;
        proof {
            assert forall|k: int| pos <= k < old_infos.len() implies !before(
                #[trigger] old_infos[k].is_dir,
                old_keys[k]@,
                info.is_dir,
                key@,
            ) by {
                if before(old_infos[k].is_dir, old_keys[k]@, info.is_dir, key@) {
                    if k > pos {
                        assert(!before(
                            old_infos[k].is_dir,
                            old_keys[k]@,
                            old_infos[pos as int].is_dir,
                            old_keys[pos as int]@,
                        ));
                    }
                    lemma_before_transitive(
                        old_infos[k].is_dir,
                        old_keys[k]@,
                        info.is_dir,
                        key@,
                        old_infos[pos as int].is_dir,
                        old_keys[pos as int]@,
                    );
                }
            }
        }
        out_infos.insert(pos, info);
        out_keys.insert(pos, key);
        proof {
            assert(keyed(out_infos@, out_keys@) =~= keyed(old_infos, old_keys).insert(pos as int, item));
            to_multiset_insert(keyed(old_infos, old_keys), pos as int, item);
            assert forall|i: int, j: int| 0 <= i < j < out_infos@.len() implies !before(
                #[trigger] out_infos@[j].is_dir,
                out_keys@[j]@,
                #[trigger] out_infos@[i].is_dir,
                out_keys@[i]@,
            ) by {
                if j < pos {
                    assert(out_infos@[j] == old_infos[j] && out_infos@[i] == old_infos[i]);
                } else if j == pos {
                    assert(out_infos@[i] == old_infos[i]);
                } else if i < pos {
                    assert(out_infos@[j] == old_infos[j - 1] && out_infos@[i] == old_infos[i]);
                } else if i == pos {
                    assert(out_infos@[j] == old_infos[j - 1]);
                } else {
                    assert(out_infos@[j] == old_infos[j - 1] && out_infos@[i] == old_infos[i - 1]);
                }
            }
            assert(keyed(infos@, keys@).to_multiset().add(keyed(out_infos@, out_keys@).to_multiset())
                =~= all.to_multiset());
        }
    }
    assert(keyed(infos@, keys@).to_multiset().len() == 0);
    assert(keyed(infos@, keys@).to_multiset() =~= Multiset::empty());
    (out_infos, out_keys)
}

/// Puts a directory listing in order: directories before files, and within
/// each group by name without regard to case.
pub fn sort_entries(entries: Vec<FileInfo>) -> (r: Vec<FileInfo>)
    ensures
        by_lower_name(r@).to_multiset() == by_lower_name(entries@).to_multiset(),
        forall|i: int, j: int|
            0 <= i < j < r@.len() ==> !before(
                #[trigger] r@[j].is_dir,
                lower_of(r@[j].name@),
                #[trigger] r@[i].is_dir,
                lower_of(r@[i].name@),
            ),
{
    broadcast use group_to_multiset_ensures;

    let mut keys: Vec<String> = Vec::new();
    let mut i: usize = 0;
    while i < entries.len()
        invariant
            i <= entries@.len(),
            keys@.len() == i,
            forall|k: int| 0 <= k < i ==> #[trigger] keys@[k]@ == lower_of(entries@[k].name@),
        decreases entries@.len() - i,
    {
        keys.push(lowercase(entries[i].name.as_str()));
        i = i + 1;
    }
    assert(keyed(entries@, keys@) =~= by_lower_name(entries@));
    let ghost given = entries@;
    let (sorted, sorted_keys) = sort_by_keys(entries, keys);
    proof {
        let ks = keyed(sorted@, sorted_keys@);
        assert forall|k: int| 0 <= k < sorted@.len() implies #[trigger] sorted_keys@[k]@ == lower_of(
            sorted@[k].name@,
        ) by {
            assert(ks.contains(ks[k]));
            assert(by_lower_name(given).to_multiset().count(ks[k]) > 0);
            let j = choose|j: int| 0 <= j < by_lower_name(given).len() && by_lower_name(given)[j] == ks[k];
        }
        assert(ks =~= by_lower_name(sorted@));
    }
    sorted
}

/// `n` written in octal, without leading zeros.
pub open spec fn octal(n: nat) -> Seq<char>
    decreases n,
{
    if n < 8 {
        seq![digit_char(n)]
    } else {
        octal(n / 8).push(digit_char(n % 8))
    }
}

/// The permission bits of a file mode (its low nine bits) in octal.
pub fn permission_text(mode: u32) -> (r: String)
    ensures
        r@ == octal((mode % 512) as nat),
{
    let m = mode % 512;
    if m < 8 {
        String::from_str(digit_text(m as u64))
    } else if m < 64 {
        assert(octal(m as nat) == octal((m / 8) as nat).push(digit_char((m % 8) as nat)));
        String::from_str(digit_text((m / 8) as u64)).concat(digit_text((m % 8) as u64))
    } else {
        assert((m / 8) / 8 == m / 64);
        assert(octal(m as nat) == octal((m / 8) as nat).push(digit_char((m % 8) as nat)));
        assert(octal((m / 8) as nat) == octal((m / 64) as nat).push(digit_char(((m / 8) % 8) as nat)));
        String::from_str(digit_text((m / 64) as u64)).concat(digit_text(((m / 8) % 8) as u64)).concat(digit_text((m % 8) as u64))
    }
}

/// The listing entry of a file or directory; a directory's size is zero.
pub fn entry_info(
    name: String,
    path: String,
    is_dir: bool,
    len: u64,
    modified: i64,
    mode: u32,
) -> (r: FileInfo)
    ensures
        r.name == name,
        r.path == path,
        r.is_dir == is_dir,
        r.size == if is_dir { 0 } else { len },
        r.modified == modified,
        r.permissions@ == octal((mode % 512) as nat),
{
    FileInfo {
        name,
        path,
        is_dir,
        size: if is_dir { 0 } else { len },
        modified,
        permissions: permission_text(mode),
    }
}

proof fn lemma_key_lt_total(a: Seq<char>, b: Seq<char>)
    requires
        a != b,
    ensures
        key_lt(a, b) || key_lt(b, a),
{
    lemma_diff_from(a, b, 0);
    lemma_diff_from(b, a, 0);
    let d1 = diff_from(a, b, 0);
    let d2 = diff_from(b, a, 0);
    assert(d1 == d2) by {
        if d1 < d2 {
            assert(b[d1] == a[d1]);
        }
        if d2 < d1 {
            assert(a[d2] == b[d2]);
        }
    }
    if d1 == a.len() && d1 == b.len() {
        assert(a =~= b);
    }
    if d1 < a.len() && d1 < b.len() {
        assert(a[d1] != b[d1]);
        char_u32_cast(a[d1], a[d1] as u32);
        char_u32_cast(b[d1], b[d1] as u32);
    }
}

/// Entries beside their keys, no entry strictly before an earlier one.
pub open spec fn pairs_in_order(s: Seq<(FileInfo, Seq<char>)>) -> bool {
    forall|i: int, j: int|
        0 <= i < j < s.len() ==> !before(#[trigger] s[j].0.is_dir, s[j].1, #[trigger] s[i].0.is_dir, s[i].1)
}

/// No two entries of the same kind (directory or file) share a key.
pub open spec fn no_ties(s: Seq<(FileInfo, Seq<char>)>) -> bool {
    forall|i: int, j: int|
        0 <= i < s.len() && 0 <= j < s.len() && i != j ==> !(#[trigger] s[i].0.is_dir == #[trigger] s[j].0.is_dir
            && s[i].1 == s[j].1)
}

/// The listing order leaves no choice: two orderings of the same entries,
/// each beside its key, that both keep the listing order are the same
/// sequence, when no two entries of the same kind share a key.
pub proof fn listing_order_is_unique(a: Seq<(FileInfo, Seq<char>)>, b: Seq<(FileInfo, Seq<char>)>)
    requires
        a.to_multiset() == b.to_multiset(),
        pairs_in_order(a),
        pairs_in_order(b),
        no_ties(a),
    ensures
        a == b,
    decreases a.len(),
{
    broadcast use group_to_multiset_ensures;

    assert(a.to_multiset().len() == a.len());
    assert(b.to_multiset().len() == b.len());
    if a.len() == 0 {
        assert(b.len() == 0);
        assert(a =~= b);
    } else {
        assert(b.len() == a.len());
        assert(b.contains(b[0]) && b.to_multiset().count(b[0]) > 0);
        assert(a.to_multiset().count(b[0]) > 0);
        assert(a.contains(b[0]));
        assert(a.contains(a[0]) && a.to_multiset().count(a[0]) > 0);
        assert(b.to_multiset().count(a[0]) > 0);
        assert(b.contains(a[0]));
        let i = choose|i: int| 0 <= i < a.len() && a[i] == b[0];
        let j = choose|j: int| 0 <= j < b.len() && b[j] == a[0];
        if i != 0 && j != 0 {
            let x = a[0];
            let y = a[i];
            if x.0.is_dir == y.0.is_dir {
                assert(x.1 != y.1);
                lemma_key_lt_total(x.1, y.1);
            }
            assert(!before(y.0.is_dir, y.1, x.0.is_dir, x.1));
            assert(!before(b[j].0.is_dir, b[j].1, b[0].0.is_dir, b[0].1));
            assert(false);
        }
        assert(a[0] == b[0]);
        let ta = a.drop_first();
        let tb = b.drop_first();
        assert(a.remove(0) =~= ta);
        assert(b.remove(0) =~= tb);
        assert(ta.to_multiset() == tb.to_multiset());
        assert(pairs_in_order(ta)) by {
            assert forall|p: int, q: int| 0 <= p < q < ta.len() implies !before(
                #[trigger] ta[q].0.is_dir,
                ta[q].1,
                #[trigger] ta[p].0.is_dir,
                ta[p].1,
            ) by {
                assert(ta[q] == a[q + 1] && ta[p] == a[p + 1]);
            }
        }
        assert(pairs_in_order(tb)) by {
            assert forall|p: int, q: int| 0 <= p < q < tb.len() implies !before(
                #[trigger] tb[q].0.is_dir,
                tb[q].1,
                #[trigger] tb[p].0.is_dir,
                tb[p].1,
            ) by {
                assert(tb[q] == b[q + 1] && tb[p] == b[p + 1]);
            }
        }
        assert(no_ties(ta)) by {
            assert forall|p: int, q: int|
                0 <= p < ta.len() && 0 <= q < ta.len() && p != q implies !(
                #[trigger] ta[p].0.is_dir == #[trigger] ta[q].0.is_dir && ta[p].1 == ta[q].1) by {
                assert(ta[q] == a[q + 1] && ta[p] == a[p + 1]);
            }
        }
        listing_order_is_unique(ta, tb);
        assert(a =~= b) by {
            assert forall|k: int| 0 <= k < a.len() implies a[k] == b[k] by {
                if k > 0 {
                    assert(a[k] == ta[k - 1] && b[k] == tb[k - 1]);
                }
            }
        }
    }
}

} // verus!
