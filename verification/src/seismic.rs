//! Seismic file formats: which reader a file goes to, and how the traces
//! found in one miniSEED file are named.

use vstd::prelude::*;
use vstd::string::{StringExecFns, StrSliceExecFns};
use crate::paths::{path_extension, path_file_stem, spec_path_extension, spec_path_file_stem};
use crate::text::{to_lowercase, spec_lowercase, str_eq, str_trim, trim, push_char, chars_of};
use crate::order::{name_le, name_lt, lemma_name_le_total, lemma_name_le_trans, lemma_name_le_antisym, lemma_name_le_refl};

verus! {

/// The waveform file formats that can be read.
#[derive(Debug, Clone, Copy, PartialEq, Eq, Structural)]
pub enum SeismicFormat {
    Sac,
    MiniSeed,
}

/// The lower-cased extension of a path, empty when it has none.
pub open spec fn ext_lower(p: Seq<char>) -> Seq<char> {
    match spec_path_extension(p) {
        Some(e) => spec_lowercase(e),
        None => seq![],
    }
}

/// The format a file is read as, from its extension: `sac`, or `mseed`,
/// `m` and `miniseed` for miniSEED; anything else is refused with the
/// message `Unsupported file extension: .EXT`.
pub open spec fn spec_seismic_format(p: Seq<char>) -> Result<SeismicFormat, Seq<char>> {
    let e = ext_lower(p);
    if e == seq!['s', 'a', 'c'] {
        Ok(SeismicFormat::Sac)
    } else if e == seq!['m', 's', 'e', 'e', 'd'] || e == seq!['m'] || e == seq!['m', 'i', 'n', 'i', 's', 'e', 'e', 'd'] {
        Ok(SeismicFormat::MiniSeed)
    } else {
        Err("Unsupported file extension: ."@ + e)
    }
}

/// Choose the reader for a seismic file by its extension.
pub fn seismic_format(path: &str) -> (r: Result<SeismicFormat, String>)
    ensures
        match (r, spec_seismic_format(path@)) {
            (Ok(a), Ok(b)) => a == b,
            (Err(m), Err(n)) => m@ == n,
            _ => false,
        },
{
    let ext = match path_extension(path) {
        Some(e) => to_lowercase(e.as_str()),
        None => String::new(),
    };
    proof {
        reveal_strlit("sac");
        reveal_strlit("mseed");
        reveal_strlit("m");
        reveal_strlit("miniseed");
        assert("sac"@ =~= seq!['s', 'a', 'c']);
        assert("mseed"@ =~= seq!['m', 's', 'e', 'e', 'd']);
        assert("m"@ =~= seq!['m']);
        assert("miniseed"@ =~= seq!['m', 'i', 'n', 'i', 's', 'e', 'e', 'd']);
    }
    if str_eq(ext.as_str(), "sac") {
        Ok(SeismicFormat::Sac)
    } else if str_eq(ext.as_str(), "mseed") || str_eq(ext.as_str(), "m") || str_eq(ext.as_str(), "miniseed") {
        Ok(SeismicFormat::MiniSeed)
    } else {
        let mut m = String::from_str("Unsupported file extension: .");
        m.append(ext.as_str());
        Err(m)
    }
}

/// The identifier of a miniSEED channel: network, station, location and
/// channel codes, each trimmed, joined by dots.
pub open spec fn spec_channel_key(net: Seq<char>, sta: Seq<char>, loc: Seq<char>, cha: Seq<char>) -> Seq<char> {
    trim(net) + seq!['.'] + trim(sta) + seq!['.'] + trim(loc) + seq!['.'] + trim(cha)
}

/// Build the `NET.STA.LOC.CHA` key that groups miniSEED records.
pub fn channel_key(net: &str, sta: &str, loc: &str, cha: &str) -> (r: String)
    ensures
        r@ == spec_channel_key(net@, sta@, loc@, cha@),
{
    let mut r = String::from_str(str_trim(net));
    push_char(&mut r, '.');
    r.append(str_trim(sta));
    push_char(&mut r, '.');
    r.append(str_trim(loc));
    push_char(&mut r, '.');
    r.append(str_trim(cha));
    r
}

/// The display name of a trace read from a file: the file name when the
/// file holds one channel, otherwise `STEM_KEY.EXT` (or `STEM_KEY` for a
/// file without extension), the stem defaulting to the file name.
pub open spec fn spec_trace_file_name(path: Seq<char>, filename: Seq<char>, key: Seq<char>, num_groups: int) -> Seq<char> {
    if num_groups > 1 {
        let stem = match spec_path_file_stem(path) { Some(s) => s, None => filename };
        let ext = match spec_path_extension(path) { Some(e) => e, None => seq![] };
        if ext.len() == 0 {
            stem + seq!['_'] + key
        } else {
            stem + seq!['_'] + key + seq!['.'] + ext
        }
    } else {
        filename
    }
}

/// Give each trace of a multi-channel file a name of its own.
pub fn trace_file_name(path: &str, filename: &str, key: &str, num_groups: usize) -> (r: String)
    ensures
        r@ == spec_trace_file_name(path@, filename@, key@, num_groups as int),
{
    if num_groups > 1 {
        let stem = match path_file_stem(path) {
            Some(s) => s,
            None => String::from_str(filename),
        };
        let ext = match path_extension(path) {
            Some(e) => e,
            None => String::new(),
        };
        let mut r = stem;
        push_char(&mut r, '_');
        r.append(key);
        if ext.as_str().unicode_len() > 0 {
            push_char(&mut r, '.');
            r.append(ext.as_str());
        }
        r
    } else {
        String::from_str(filename)
    }
}

/// `groups` sorts the records with channel keys `keys` by channel: one
/// group per distinct key, groups in increasing key order, and each group
/// listing the positions of its records in increasing order.
pub open spec fn is_channel_grouping(keys: Seq<Seq<char>>, groups: Seq<Seq<usize>>) -> bool {
    &&& forall|g: int| 0 <= g < groups.len() ==> (#[trigger] groups[g]).len() > 0
    &&& forall|g: int, a: int| 0 <= g < groups.len() && 0 <= a < groups[g].len() ==>
            (#[trigger] groups[g][a]) < keys.len() && keys[groups[g][a] as int] == keys[groups[g][0] as int]
    &&& forall|g: int, a: int, b: int| 0 <= g < groups.len() && 0 <= a < b < groups[g].len() ==>
            #[trigger] groups[g][a] < #[trigger] groups[g][b]
    &&& forall|g: int, h: int| 0 <= g < h < groups.len() ==>
            !name_le(keys[(#[trigger] groups[h])[0] as int], keys[(#[trigger] groups[g])[0] as int])
    &&& forall|i: int| 0 <= i < keys.len() ==> #[trigger] is_listed(groups, i)
}

/// Position `i` stands in some group.
pub open spec fn is_listed(groups: Seq<Seq<usize>>, i: int) -> bool {
    exists|g: int, a: int| 0 <= g < groups.len() && 0 <= a < groups[g].len() && #[trigger] groups[g][a] == i
}

/// Position `i` stands in some group of `groups`.
spec fn listed_in(groups: Seq<Vec<usize>>, i: int) -> bool {
    exists|g: int, a: int| 0 <= g < groups.len() && 0 <= a < groups[g]@.len() && #[trigger] groups[g]@[a] == i
}

fn chars_equal(a: &Vec<char>, b: &Vec<char>) -> (r: bool)
    ensures
        r == (a@ == b@),
{
    if a.len() != b.len() {
        return false;
    }
    let mut i: usize = 0;
    while i < a.len()
        invariant
            a@.len() == b@.len(),
            i <= a@.len(),
            forall|j: int| 0 <= j < i ==> a@[j] == b@[j],
        decreases a.len() - i,
    {
        if a[i] != b[i] {
            return false;
        }
        i = i + 1;
    }
    assert(a@ =~= b@);
    true
}

/// Group the records of a miniSEED file by their channel keys.
pub fn group_by_channel(keys: &Vec<String>) -> (groups: Vec<Vec<usize>>)
    ensures
        is_channel_grouping(keys@.map_values(|s: String| s@), groups@.map_values(|v: Vec<usize>| v@)),
{
    let ghost ks = keys@.map_values(|s: String| s@);
    let n = keys.len();
    let mut groups: Vec<Vec<usize>> = Vec::new();
    let mut gkeys: Vec<Vec<char>> = Vec::new();
    let mut k: usize = 0;
    while k < n
        invariant
            n == keys@.len(),
            ks == keys@.map_values(|s: String| s@),
            k <= n,
            gkeys@.len() == groups@.len(),
            forall|g: int| 0 <= g < groups@.len() ==> (#[trigger] groups@[g])@.len() > 0,
            forall|g: int, a: int| 0 <= g < groups@.len() && 0 <= a < groups@[g]@.len() ==>
                (#[trigger] groups@[g]@[a]) < k && ks[groups@[g]@[a] as int] == gkeys@[g]@,
            forall|g: int, a: int, b: int| 0 <= g < groups@.len() && 0 <= a < b < groups@[g]@.len() ==>
                #[trigger] groups@[g]@[a] < #[trigger] groups@[g]@[b],
            forall|g: int, h: int| 0 <= g < h < gkeys@.len() ==>
                !name_le((#[trigger] gkeys@[h])@, (#[trigger] gkeys@[g])@),
            forall|i: int| 0 <= i < k ==> #[trigger] listed_in(groups@, i),
        decreases n - k,
    {
        let key = chars_of(keys[k].as_str());
        assert(key@ == ks[k as int]);
        let mut p: usize = 0;
        while p < gkeys.len() && name_lt(&gkeys[p], &key)
            invariant
                p <= gkeys@.len(),
                forall|g: int| 0 <= g < p ==> !name_le(key@, (#[trigger] gkeys@[g])@),
            decreases gkeys.len() - p,
        {
            p = p + 1;
        }
        let ghost old_groups = groups@;
        let ghost old_gkeys = gkeys@;
        if p < gkeys.len() && chars_equal(&gkeys[p], &key) {
            let mut grp = groups.remove(p);
            grp.push(k);
            groups.insert(p, grp);
            proof {
                assert forall|g: int| 0 <= g < groups@.len() && g != p implies groups@[g] == old_groups[g] by {}
                assert forall|g: int, a: int| 0 <= g < groups@.len() && 0 <= a < groups@[g]@.len() implies
                    (#[trigger] groups@[g]@[a]) < k + 1 && ks[groups@[g]@[a] as int] == gkeys@[g]@ by {
                    if g == p && a == groups@[g]@.len() - 1 {
                    } else if g == p {
                        assert(groups@[g]@[a] == old_groups[g]@[a]);
                    }
                }
                assert forall|g: int, a: int, b: int| 0 <= g < groups@.len() && 0 <= a < b < groups@[g]@.len() implies
                    #[trigger] groups@[g]@[a] < #[trigger] groups@[g]@[b] by {
                    if g == p {
                        assert(groups@[g]@[a] == old_groups[g]@[a]);
                        if b < groups@[g]@.len() - 1 {
                            assert(groups@[g]@[b] == old_groups[g]@[b]);
                        }
                    }
                }
                assert forall|i: int| 0 <= i < k + 1 implies #[trigger] listed_in(groups@, i) by {
                    if i == k {
                        assert(groups@[p as int]@[groups@[p as int]@.len() - 1] == i);
                    } else {
                        assert(listed_in(old_groups, i));
                        let (g, a) = choose|g: int, a: int| 0 <= g < old_groups.len() && 0 <= a < old_groups[g]@.len() && #[trigger] old_groups[g]@[a] == i;
                        assert(groups@[g]@[a] == i);
                    }
                }
            }
        } else {
            let mut grp: Vec<usize> = Vec::new();
            grp.push(k);
            groups.insert(p, grp);
            gkeys.insert(p, key);
            proof {
                if p < old_gkeys.len() {
                    let q = old_gkeys[p as int]@;
                    lemma_name_le_total(key@, q);
                    if name_le(q, key@) {
                        lemma_name_le_antisym(q, key@);
                    }
                }
                assert forall|g: int| 0 <= g < groups@.len() && g < p implies groups@[g] == old_groups[g] && gkeys@[g] == old_gkeys[g] by {}
                assert forall|g: int| 0 <= g < groups@.len() && g > p implies groups@[g] == old_groups[g - 1] && gkeys@[g] == old_gkeys[g - 1] by {}
                assert forall|g: int, a: int| 0 <= g < groups@.len() && 0 <= a < groups@[g]@.len() implies
                    (#[trigger] groups@[g]@[a]) < k + 1 && ks[groups@[g]@[a] as int] == gkeys@[g]@ by {
                    if g > p {
                        assert(groups@[g]@[a] == old_groups[g - 1]@[a]);
                    } else if g < p {
                        assert(groups@[g]@[a] == old_groups[g]@[a]);
                    }
                }
                assert forall|g: int, a: int, b: int| 0 <= g < groups@.len() && 0 <= a < b < groups@[g]@.len() implies
                    #[trigger] groups@[g]@[a] < #[trigger] groups@[g]@[b] by {
                    if g > p {
                        assert(groups@[g]@[a] == old_groups[g - 1]@[a]);
                        assert(groups@[g]@[b] == old_groups[g - 1]@[b]);
                    } else if g < p {
                        assert(groups@[g]@[a] == old_groups[g]@[a]);
                        assert(groups@[g]@[b] == old_groups[g]@[b]);
                    }
                }
                assert forall|g: int, h: int| 0 <= g < h < gkeys@.len() implies
                    !name_le((#[trigger] gkeys@[h])@, (#[trigger] gkeys@[g])@) by {
                    if g < p && h > p {
                        assert(gkeys@[g] == old_gkeys[g]);
                        assert(gkeys@[h] == old_gkeys[h - 1]);
                        if name_le(old_gkeys[h - 1]@, old_gkeys[g]@) {
                        }
                        if h - 1 > p {
                            assert(!name_le(old_gkeys[h - 1]@, old_gkeys[p as int]@));
                            if name_le(old_gkeys[h - 1]@, key@) {
                                lemma_name_le_trans(old_gkeys[h - 1]@, key@, old_gkeys[p as int]@);
                            }
                        }
                        if name_le(old_gkeys[h - 1]@, old_gkeys[g]@) {
                            assert(false);
                        }
                    } else if g == p && h > p {
                        assert(gkeys@[h] == old_gkeys[h - 1]);
                        if h - 1 > p {
                            assert(!name_le(old_gkeys[h - 1]@, old_gkeys[p as int]@));
                            if name_le(old_gkeys[h - 1]@, key@) {
                                lemma_name_le_trans(old_gkeys[h - 1]@, key@, old_gkeys[p as int]@);
                            }
                        }
                    } else if g < p && h == p {
                        assert(gkeys@[g] == old_gkeys[g]);
                    } else if h < p {
                        assert(gkeys@[g] == old_gkeys[g] && gkeys@[h] == old_gkeys[h]);
                    } else {
                        assert(gkeys@[g] == old_gkeys[g - 1] && gkeys@[h] == old_gkeys[h - 1]);
                    }
                }
                assert forall|i: int| 0 <= i < k + 1 implies #[trigger] listed_in(groups@, i) by {
                    if i == k {
                        assert(groups@[p as int]@[0] == i);
                    } else {
                        assert(listed_in(old_groups, i));
                        let (g, a) = choose|g: int, a: int| 0 <= g < old_groups.len() && 0 <= a < old_groups[g]@.len() && #[trigger] old_groups[g]@[a] == i;
                        if g < p {
                            assert(groups@[g]@[a] == i);
                        } else {
                            assert(groups@[g + 1]@[a] == i);
                        }
                    }
                }
            }
        }
        k = k + 1;
    }
    proof {
        let gv = groups@.map_values(|v: Vec<usize>| v@);
        assert forall|g: int, h: int| 0 <= g < h < gv.len() implies
            !name_le(ks[(#[trigger] gv[h])[0] as int], ks[(#[trigger] gv[g])[0] as int]) by {
            assert(ks[gv[h][0] as int] == gkeys@[h]@);
            assert(ks[gv[g][0] as int] == gkeys@[g]@);
        }
        assert forall|g: int, a: int| 0 <= g < gv.len() && 0 <= a < gv[g].len() implies
            (#[trigger] gv[g][a]) < ks.len() && ks[gv[g][a] as int] == ks[gv[g][0] as int] by {
            assert(gv[g] == groups@[g]@);
        }
        assert forall|i: int| 0 <= i < ks.len() implies #[trigger] is_listed(gv, i) by {
            assert(listed_in(groups@, i));
            let (g, a) = choose|g: int, a: int| 0 <= g < groups@.len() && 0 <= a < groups@[g]@.len() && #[trigger] groups@[g]@[a] == i;
            assert(gv[g][a] == i);
        }
    }
    groups
}

/// Traces of a file with several channels get different names for
/// different channel keys.
pub proof fn law_trace_names_distinct(path: Seq<char>, filename: Seq<char>, k1: Seq<char>, k2: Seq<char>, num_groups: int)
    requires
        num_groups > 1,
        k1 != k2,
    ensures
        spec_trace_file_name(path, filename, k1, num_groups) != spec_trace_file_name(path, filename, k2, num_groups),
{
    let stem = match spec_path_file_stem(path) { Some(s) => s, None => filename };
    let ext = match spec_path_extension(path) { Some(e) => e, None => seq![] };
    let pre = stem + seq!['_'];
    let suf: Seq<char> = if ext.len() == 0 { seq![] } else { seq!['.'] + ext };
    let n1 = spec_trace_file_name(path, filename, k1, num_groups);
    let n2 = spec_trace_file_name(path, filename, k2, num_groups);
    assert(n1 =~= pre + k1 + suf);
    assert(n2 =~= pre + k2 + suf);
    if n1 == n2 {
        assert(k1.len() == k2.len());
        assert forall|i: int| 0 <= i < k1.len() implies k1[i] == k2[i] by {
            assert(n1[pre.len() + i] == k1[i]);
            assert(n2[pre.len() + i] == k2[i]);
        }
        assert(k1 =~= k2);
    }
}

/// The traces a file's channel groups give all have different names.
pub proof fn law_grouped_trace_names_distinct(keys: Seq<Seq<char>>, groups: Seq<Seq<usize>>, path: Seq<char>, filename: Seq<char>)
    requires
        is_channel_grouping(keys, groups),
    ensures
        forall|g: int, h: int| 0 <= g < h < groups.len() ==>
            #[trigger] spec_trace_file_name(path, filename, keys[groups[g][0] as int], groups.len() as int)
                != #[trigger] spec_trace_file_name(path, filename, keys[groups[h][0] as int], groups.len() as int),
{
    assert forall|g: int, h: int| 0 <= g < h < groups.len() implies
        #[trigger] spec_trace_file_name(path, filename, keys[groups[g][0] as int], groups.len() as int)
            != #[trigger] spec_trace_file_name(path, filename, keys[groups[h][0] as int], groups.len() as int) by {
        let kg = keys[groups[g][0] as int];
        let kh = keys[groups[h][0] as int];
        assert(!name_le(kh, kg));
        lemma_name_le_refl(kg);
        law_trace_names_distinct(path, filename, kg, kh, groups.len() as int);
    }
}

} // verus!
