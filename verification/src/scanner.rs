//! What the browser reads from a virtual environment: the fields of its
//! `pyvenv.cfg`, the labels of its installed packages, and which directory
//! entries it looks into. Reading the disk is left to the caller; this module
//! decides what the bytes and names it is handed mean.
use vstd::prelude::*;
use vstd::relations::sorted_by;
use vstd::seq_lib::lemma_sorted_unique;
use crate::app::VenvMetadata;
use crate::order::{
    char_seq_le, chars_le, lemma_le_total, lemma_le_transitive, lemma_text_order_total, text_order,
};
use crate::text::{
    chars_of, find_first, find_last, is_first_index, is_last_index, lemma_rsplit_once_at,
    lemma_split_once_at, rsplit_once, split_on, split_once, string_of, trim, trim_bounds,
};

verus! {

/// The file whose presence marks a directory as a virtual environment.
pub const CONFIG_FILE_NAME: &'static str = "pyvenv.cfg";

/// The directory of a virtual environment that holds the Python libraries.
pub const LIB_DIR_NAME: &'static str = "lib";

/// The directory, inside a `python*` library directory, that holds the
/// installed distributions.
pub const SITE_PACKAGES_DIR_NAME: &'static str = "site-packages";

/// The three fields of `pyvenv.cfg` that the browser shows.
pub struct ConfigFields {
    pub version: Seq<char>,
    pub executable: Seq<char>,
    pub include_system_packages: Seq<char>,
}

/// The fields before any line is read: all empty.
pub open spec fn empty_fields() -> ConfigFields {
    ConfigFields {
        version: Seq::empty(),
        executable: Seq::empty(),
        include_system_packages: Seq::empty(),
    }
}

/// The fields after one more line: a line `key = value` whose trimmed key is
/// `version`, `executable` or `include-system-site-packages` sets that field
/// to the trimmed value (the key ends at the first `=`); any other line
/// leaves the fields as they were.
pub open spec fn apply_config_line(acc: ConfigFields, line: Seq<char>) -> ConfigFields {
    match split_once(line, '=') {
        Some((k, v)) => {
            let key = trim(k);
            let value = trim(v);
            if key == "version"@ {
                ConfigFields {
                    version: value,
                    executable: acc.executable,
                    include_system_packages: acc.include_system_packages,
                }
            } else if key == "executable"@ {
                ConfigFields {
                    version: acc.version,
                    executable: value,
                    include_system_packages: acc.include_system_packages,
                }
            } else if key == "include-system-site-packages"@ {
                ConfigFields {
                    version: acc.version,
                    executable: acc.executable,
                    include_system_packages: value,
                }
            } else {
                acc
            }
        },
        None => acc,
    }
}

/// The fields after reading `lines` in order: a later line for a key wins.
pub open spec fn fields_of_lines(lines: Seq<Seq<char>>) -> ConfigFields
    decreases lines.len(),
{
    if lines.len() == 0 {
        empty_fields()
    } else {
        apply_config_line(fields_of_lines(lines.drop_last()), lines.last())
    }
}

/// The fields that the text of a `pyvenv.cfg` sets.
pub open spec fn parse_config(text: Seq<char>) -> ConfigFields {
    fields_of_lines(split_on(text, '\n'))
}

/// The fields that a metadata value holds.
pub open spec fn fields_of(m: VenvMetadata) -> ConfigFields {
    ConfigFields {
        version: m.version@,
        executable: m.executable@,
        include_system_packages: m.include_system_packages@,
    }
}

/// The label of an installed distribution, from the name of its directory in
/// `site-packages`: `None` unless the name ends in `.dist-info`; else, with
/// that suffix cut off, `name == version` where a `-` parts the two (at its
/// last occurrence), or the name as it stands where there is no `-`.
pub open spec fn package_label(entry: Seq<char>) -> Option<Seq<char>> {
    if ".dist-info"@.is_suffix_of(entry) {
        let raw = entry.take(entry.len() - ".dist-info"@.len());
        match rsplit_once(raw, '-') {
            Some((name, version)) => Some(name + " == "@ + version),
            None => Some(raw),
        }
    } else {
        None
    }
}

/// The labels of the entries that have one, in the entries' order.
pub open spec fn labels_of(entries: Seq<Seq<char>>) -> Seq<Seq<char>>
    decreases entries.len(),
{
    if entries.len() == 0 {
        Seq::empty()
    } else {
        let rest = labels_of(entries.drop_last());
        match package_label(entries.last()) {
            Some(l) => rest.push(l),
            None => rest,
        }
    }
}

/// The package list shown for a `site-packages` directory: the labels of its
/// entries, sorted.
pub open spec fn installed_packages(entries: Seq<Seq<char>>) -> Seq<Seq<char>> {
    labels_of(entries).sort_by(text_order())
}

/// The texts of a vector of strings.
pub open spec fn texts(v: Seq<String>) -> Seq<Seq<char>> {
    v.map_values(|s: String| s@)
}

/// An entry of a virtual environment's `lib` directory.
pub struct LibEntry {
    pub name: String,
    pub is_dir: bool,
}

/// The entry is the directory of a Python installation's libraries.
pub open spec fn is_python_lib_dir(e: LibEntry) -> bool {
    e.is_dir && "python"@.is_prefix_of(e.name@)
}

/// Sets the field that `line` (that is, `v[lo..hi]`) assigns, if any.
fn apply_line(meta: &mut VenvMetadata, v: &Vec<char>, lo: usize, hi: usize)
    requires
        lo <= hi <= v@.len(),
    ensures
        fields_of(*final(meta)) == apply_config_line(
            fields_of(*old(meta)),
            v@.subrange(lo as int, hi as int),
        ),
        final(meta).packages == old(meta).packages,
{
    let ghost line = v@.subrange(lo as int, hi as int);
    match find_first(v, lo, hi, '=') {
        None => {
            assert(!exists|i: int| is_first_index(line, '=', i)) by {
                if exists|i: int| is_first_index(line, '=', i) {
                    let i = choose|i: int| is_first_index(line, '=', i);
                    assert(v@[lo + i] == '=');
                }
            }
        },
        Some(k) => {
            proof {
                lemma_split_once_at(line, '=', k as int);
                assert(line.take(k as int) =~= v@.subrange(lo as int, lo + k));
                assert(line.skip(k + 1) =~= v@.subrange(lo + k + 1, hi as int));
            }
            let (ka, kb) = trim_bounds(v, lo, lo + k);
            let (va, vb) = trim_bounds(v, lo + k + 1, hi);
            let key = string_of(v, ka, kb);
            let value = string_of(v, va, vb);
            if key == String::from_str("version") {
                meta.version = value;
            } else if key == String::from_str("executable") {
                meta.executable = value;
            } else if key == String::from_str("include-system-site-packages") {
                meta.include_system_packages = value;
            }
        },
    }
}

/// The fields that the text of a `pyvenv.cfg` sets, with no packages.
pub fn parse_venv_config(content: &str) -> (meta: VenvMetadata)
    ensures
        fields_of(meta) == parse_config(content@),
        meta.packages@.len() == 0,
{
    let v = chars_of(content);
    let mut meta = VenvMetadata::default();
    let mut start: usize = 0;
    let mut i: usize = 0;
    proof {
        assert(v@.take(0) =~= Seq::<char>::empty());
        assert(fields_of(meta) == empty_fields());
        assert(split_on(v@.take(0), '\n').drop_last() =~= Seq::<Seq<char>>::empty());
        assert(v@.subrange(0, 0) =~= Seq::<char>::empty());
    }
    while i < v.len()
        invariant
            start <= i <= v@.len(),
            v@ == content@,
            meta.packages@.len() == 0,
            fields_of(meta) == fields_of_lines(split_on(v@.take(i as int), '\n').drop_last()),
            split_on(v@.take(i as int), '\n').len() >= 1,
            split_on(v@.take(i as int), '\n').last() == v@.subrange(start as int, i as int),
        decreases v@.len() - i,
    {
        let ghost before = split_on(v@.take(i as int), '\n');
        assert(v@.take(i + 1).drop_last() =~= v@.take(i as int));
        assert(v@.take(i + 1).last() == v@[i as int]);
        if v[i] == '\n' {
            apply_line(&mut meta, &v, start, i);
            proof {
                let after = split_on(v@.take(i + 1), '\n');
                assert(after == before.push(Seq::<char>::empty()));
                assert(after.drop_last() =~= before);
                assert(before =~= before.drop_last().push(before.last()));
                assert(v@.subrange(i + 1, i + 1) =~= Seq::<char>::empty());
            }
            start = i + 1;
        } else {
            proof {
                let after = split_on(v@.take(i + 1), '\n');
                assert(after.drop_last() =~= before.drop_last());
                assert(v@.subrange(start as int, i + 1) =~= v@.subrange(start as int, i as int).push(v@[i as int]));
            }
        }
        i = i + 1;
    }
    apply_line(&mut meta, &v, start, v.len());
    proof {
        let all = split_on(v@.take(i as int), '\n');
        assert(v@.take(i as int) =~= v@);
        assert(all =~= all.drop_last().push(all.last()));
    }
    meta
}

/// The fields of a `pyvenv.cfg` together with the packages installed beside
/// it, or `None` where the file could not be read.
pub fn parse_venv_metadata(config_text: Option<String>, packages: Vec<String>) -> (r: Option<VenvMetadata>)
    ensures
        match config_text {
            None => r is None,
            Some(t) => r matches Some(m) && fields_of(m) == parse_config(t@) && m.packages == packages,
        },
{
    match config_text {
        None => None,
        Some(t) => {
            let mut meta = parse_venv_config(t.as_str());
            meta.packages = packages;
            Some(meta)
        },
    }
}

/// The label of an installed distribution, from the name of its entry in
/// `site-packages`.
pub fn package_label_of(entry: &str) -> (r: Option<String>)
    ensures
        match r {
            Some(l) => package_label(entry@) == Some(l@),
            None => package_label(entry@) is None,
        },
{
    let v = chars_of(entry);
    let suffix = chars_of(".dist-info");
    let n = v.len();
    let m = suffix.len();
    if n < m {
        return None;
    }
    let mut j: usize = 0;
    while j < m
        invariant
            j <= m == suffix@.len(),
            m <= n == v@.len(),
            suffix@ == ".dist-info"@,
            v@ == entry@,
            forall|t: int| 0 <= t < j ==> suffix@[t] == v@[n - m + t],
        decreases m - j,
    {
        if suffix[j] != v[n - m + j] {
            assert(!".dist-info"@.is_suffix_of(v@)) by {
                if ".dist-info"@.is_suffix_of(v@) {
                    assert(suffix@[j as int] == v@.subrange(n - m, n as int)[j as int]);
                    assert(v@.subrange(n - m, n as int)[j as int] == v@[n - m + j]);
                }
            }
            return None;
        }
        j = j + 1;
    }
    assert(".dist-info"@.is_suffix_of(v@)) by {
        assert(suffix@ =~= v@.subrange(n - m, n as int));
    }
    let raw_len = n - m;
    let ghost raw = v@.take(raw_len as int);
    assert(raw =~= v@.subrange(0, raw_len as int));
    match find_last(&v, 0, raw_len, '-') {
        Some(k) => {
            proof {
                lemma_rsplit_once_at(raw, '-', k as int);
                assert(raw.take(k as int) =~= v@.subrange(0, k as int));
                assert(raw.skip(k + 1) =~= v@.subrange(k + 1, raw_len as int));
            }
            let mut label: Vec<char> = Vec::new();
            let mut t: usize = 0;
            while t < k
                invariant
                    t <= k < raw_len <= v@.len(),
                    label@ == v@.subrange(0, t as int),
                decreases k - t,
            {
                label.push(v[t]);
                assert(v@.subrange(0, t + 1) =~= v@.subrange(0, t as int).push(v@[t as int]));
                t = t + 1;
            }
            let sep = chars_of(" == ");
            let mut s: usize = 0;
            while s < sep.len()
                invariant
                    s <= sep@.len(),
                    sep@ == " == "@,
                    label@ == v@.subrange(0, k as int) + sep@.take(s as int),
                decreases sep@.len() - s,
            {
                label.push(sep[s]);
                assert(sep@.take(s + 1) =~= sep@.take(s as int).push(sep@[s as int]));
                s = s + 1;
            }
            let mut t: usize = k + 1;
            while t < raw_len
                invariant
                    k + 1 <= t <= raw_len <= v@.len(),
                    label@ == v@.subrange(0, k as int) + " == "@ + v@.subrange(k + 1, t as int),
                decreases raw_len - t,
            {
                label.push(v[t]);
                assert(v@.subrange(k + 1, t + 1) =~= v@.subrange(k + 1, t as int).push(v@[t as int]));
                t = t + 1;
            }
            assert(sep@.take(sep@.len() as int) =~= sep@);
            let text = string_of(&label, 0, label.len());
            assert(label@.subrange(0, label@.len() as int) =~= label@);
            Some(text)
        },
        None => {
            assert(!exists|i: int| is_last_index(raw, '-', i)) by {
                if exists|i: int| is_last_index(raw, '-', i) {
                    let i = choose|i: int| is_last_index(raw, '-', i);
                    assert(v@[i] == '-');
                }
            }
            let mut label: Vec<char> = Vec::new();
            let mut t: usize = 0;
            while t < raw_len
                invariant
                    t <= raw_len <= v@.len(),
                    label@ == v@.subrange(0, t as int),
                decreases raw_len - t,
            {
                label.push(v[t]);
                assert(v@.subrange(0, t + 1) =~= v@.subrange(0, t as int).push(v@[t as int]));
                t = t + 1;
            }
            let text = string_of(&label, 0, label.len());
            assert(label@.subrange(0, label@.len() as int) =~= label@);
            Some(text)
        },
    }
}

/// The texts of a vector of character vectors.
pub open spec fn char_texts(v: Seq<Vec<char>>) -> Seq<Seq<char>> {
    v.map_values(|c: Vec<char>| c@)
}

/// Inserting `x` where everything before is no later and everything after is
/// no earlier keeps a sorted sequence sorted.
proof fn lemma_insert_sorted(s: Seq<Seq<char>>, p: int, x: Seq<char>)
    requires
        0 <= p <= s.len(),
        sorted_by(s, text_order()),
        forall|j: int| 0 <= j < p ==> char_seq_le(#[trigger] s[j], x),
        forall|j: int| p <= j < s.len() ==> char_seq_le(x, #[trigger] s[j]),
    ensures
        sorted_by(s.insert(p, x), text_order()),
{
    let t = s.insert(p, x);
    assert forall|i: int, j: int| 0 <= i < j < t.len() implies #[trigger] text_order()(
        t[i],
        t[j],
    ) by {
        if j < p {
            assert(text_order()(s[i], s[j]));
        } else if j == p {
            assert(char_seq_le(s[i], x));
        } else if i < p {
            assert(text_order()(s[i], s[j - 1]));
        } else if i == p {
            assert(char_seq_le(x, s[j - 1]));
        } else {
            assert(text_order()(s[i - 1], s[j - 1]));
        }
    }
}

/// Inserting an element adds it to the multiset of elements.
proof fn lemma_insert_multiset(s: Seq<Seq<char>>, p: int, x: Seq<char>)
    requires
        0 <= p <= s.len(),
    ensures
        s.insert(p, x).to_multiset() =~= s.to_multiset().insert(x),
{
    broadcast use vstd::seq_lib::group_to_multiset_ensures;
    broadcast use vstd::multiset::group_multiset_axioms;
    let t = s.insert(p, x);
    assert(t.remove(p) =~= s);
    assert(t.remove(p).to_multiset() =~= t.to_multiset().remove(x));
    assert(t.to_multiset().contains(x)) by {
        assert(t[p] == x);
    }
}

/// The package list shown for a `site-packages` directory, from the names of
/// its entries: the labels of the `.dist-info` entries, sorted.
pub fn get_installed_packages(entries: &Vec<String>) -> (r: Vec<String>)
    ensures
        texts(r@) == installed_packages(texts(entries@)),
{
    let ghost names = texts(entries@);
    let mut sorted: Vec<Vec<char>> = Vec::new();
    let mut i: usize = 0;
    proof {
        assert(names.take(0) =~= Seq::<Seq<char>>::empty());
        assert(char_texts(sorted@) =~= Seq::<Seq<char>>::empty());
    }
    while i < entries.len()
        invariant
            i <= entries@.len(),
            names == texts(entries@),
            sorted_by(char_texts(sorted@), text_order()),
            char_texts(sorted@).to_multiset() == labels_of(names.take(i as int)).to_multiset(),
        decreases entries@.len() - i,
    {
        let ghost before = char_texts(sorted@);
        assert(names.take(i + 1).drop_last() =~= names.take(i as int));
        assert(names.take(i + 1).last() == entries@[i as int]@);
        let label = package_label_of(entries[i].as_str());
        match label {
            Some(text) => {
                let l = chars_of(text.as_str());
                let mut p: usize = 0;
                while p < sorted.len() && chars_le(&sorted[p], &l)
                    invariant
                        p <= sorted@.len(),
                        before == char_texts(sorted@),
                        forall|j: int| 0 <= j < p ==> char_seq_le(#[trigger] before[j], l@),
                    decreases sorted@.len() - p,
                {
                    p = p + 1;
                }
                proof {
                    lemma_text_order_total();
                    assert forall|j: int| p <= j < before.len() implies char_seq_le(
                        l@,
                        #[trigger] before[j],
                    ) by {
                        lemma_le_total(before[p as int], l@);
                        if j > p {
                            assert(text_order()(before[p as int], before[j]));
                            lemma_le_transitive(l@, before[p as int], before[j]);
                        }
                    }
                    lemma_insert_sorted(before, p as int, l@);
                    lemma_insert_multiset(before, p as int, l@);
                    vstd::seq_lib::to_multiset_build(labels_of(names.take(i as int)), l@);
                }
                sorted.insert(p, l);
                assert(char_texts(sorted@) =~= before.insert(p as int, l@));
            },
            None => {},
        }
        i = i + 1;
    }
    let mut r: Vec<String> = Vec::new();
    let mut k: usize = 0;
    while k < sorted.len()
        invariant
            k <= sorted@.len(),
            texts(r@) =~= char_texts(sorted@).take(k as int),
        decreases sorted@.len() - k,
    {
        let s = string_of(&sorted[k], 0, sorted[k].len());
        assert(sorted@[k as int]@.subrange(0, sorted@[k as int]@.len() as int) =~= sorted@[k as int]@);
        let ghost prev = r@;
        r.push(s);
        assert(r@ == prev.push(s));
        assert(texts(r@) =~= texts(prev).push(s@));
        assert(char_texts(sorted@).take(k + 1) =~= char_texts(sorted@).take(k as int).push(
            sorted@[k as int]@,
        ));
        k = k + 1;
    }
    proof {
        assert(names.take(entries@.len() as int) =~= names);
        assert(char_texts(sorted@).take(k as int) =~= char_texts(sorted@));
        lemma_text_order_total();
        labels_of(names).lemma_sort_by_ensures(text_order());
        lemma_sorted_unique(texts(r@), installed_packages(names), text_order());
    }
    r
}

/// Whether the entry is the directory of a Python installation's libraries:
/// a directory whose name starts with `python`.
pub fn is_python_lib_entry(e: &LibEntry) -> (b: bool)
    ensures
        b == is_python_lib_dir(*e),
{
    if !e.is_dir {
        return false;
    }
    let v = chars_of(e.name.as_str());
    let prefix = chars_of("python");
    if v.len() < prefix.len() {
        return false;
    }
    let mut j: usize = 0;
    while j < prefix.len()
        invariant
            j <= prefix@.len() <= v@.len(),
            prefix@ == "python"@,
            v@ == e.name@,
            forall|t: int| 0 <= t < j ==> prefix@[t] == v@[t],
        decreases prefix@.len() - j,
    {
        if prefix[j] != v[j] {
            assert(!"python"@.is_prefix_of(v@)) by {
                if "python"@.is_prefix_of(v@) {
                    assert(prefix@[j as int] == v@.subrange(0, prefix@.len() as int)[j as int]);
                }
            }
            return false;
        }
        j = j + 1;
    }
    assert(prefix@ =~= v@.subrange(0, prefix@.len() as int));
    true
}

/// The first entry of a `lib` directory, in the order given, that holds a
/// Python installation's libraries; only that one is looked into.
pub fn find_python_lib_dir(entries: &Vec<LibEntry>) -> (r: Option<usize>)
    ensures
        match r {
            Some(i) => i < entries@.len() && is_python_lib_dir(entries@[i as int]) && forall|j: int|
                0 <= j < i ==> !is_python_lib_dir(#[trigger] entries@[j]),
            None => forall|j: int|
                0 <= j < entries@.len() ==> !is_python_lib_dir(#[trigger] entries@[j]),
        },
{
    let mut i: usize = 0;
    while i < entries.len()
        invariant
            i <= entries@.len(),
            forall|j: int| 0 <= j < i ==> !is_python_lib_dir(#[trigger] entries@[j]),
        decreases entries@.len() - i,
    {
        if is_python_lib_entry(&entries[i]) {
            return Some(i);
        }
        i = i + 1;
    }
    None
}

/// The sum of the file lengths.
pub open spec fn total_length(lengths: Seq<u64>) -> nat
    decreases lengths.len(),
{
    if lengths.len() == 0 {
        0
    } else {
        total_length(lengths.drop_last()) + lengths.last() as nat
    }
}

/// The disk footprint of an environment from the lengths of its files: their
/// sum, wrapping round at 2^64 as `u64` addition does in a release build.
pub fn total_size(lengths: &Vec<u64>) -> (t: u64)
    ensures
        t == total_length(lengths@) % 0x1_0000_0000_0000_0000,
{
    let mut t: u64 = 0;
    let mut i: usize = 0;
    while i < lengths.len()
        invariant
            i <= lengths@.len(),
            t == total_length(lengths@.take(i as int)) % 0x1_0000_0000_0000_0000,
        decreases lengths@.len() - i,
    {
        let x = lengths[i];
        assert(lengths@.take(i + 1).drop_last() =~= lengths@.take(i as int));
        proof {
            let m: int = 0x1_0000_0000_0000_0000;
            let total = total_length(lengths@.take(i as int)) as int;
            vstd::arithmetic::div_mod::lemma_add_mod_noop(total, x as int, m);
            assert((x as int) % m == x as int);
            assert((t as int) % m == t as int);
            vstd::arithmetic::div_mod::lemma_add_mod_noop(t as int, x as int, m);
            assert((t + x) % m == t + x - (if t + x >= m { m } else { 0 })) by {
                vstd::arithmetic::div_mod::lemma_mod_self_0(m);
                if t + x >= m {
                    vstd::arithmetic::div_mod::lemma_mod_sub_multiples_vanish((t + x) as int, m);
                    vstd::arithmetic::div_mod::lemma_small_mod((t + x - m) as nat, m as nat);
                } else {
                    vstd::arithmetic::div_mod::lemma_small_mod((t + x) as nat, m as nat);
                }
            }
        }
        t = t.wrapping_add(x);
        i = i + 1;
    }
    assert(lengths@.take(i as int) =~= lengths@);
    t
}

/// Appending a line break and a last line adds that line to the pieces.
pub proof fn lemma_split_on_append_line(t: Seq<char>, line: Seq<char>)
    requires
        !line.contains('\n'),
    ensures
        split_on(t + seq!['\n'] + line, '\n') == split_on(t, '\n').push(line),
    decreases line.len(),
{
    if line.len() == 0 {
        assert(t + seq!['\n'] + line =~= t.push('\n'));
        assert((t + seq!['\n'] + line).drop_last() =~= t);
        assert((t + seq!['\n'] + line).last() == '\n');
        assert(line =~= Seq::<char>::empty());
    } else {
        let shorter = line.drop_last();
        assert(!shorter.contains('\n')) by {
            if shorter.contains('\n') {
                let k = choose|k: int| 0 <= k < shorter.len() && shorter[k] == '\n';
                assert(line[k] == '\n');
            }
        }
        assert(line.last() != '\n') by {
            assert(line[line.len() - 1] == line.last());
        }
        lemma_split_on_append_line(t, shorter);
        assert((t + seq!['\n'] + line).drop_last() =~= t + seq!['\n'] + shorter);
        assert(shorter.push(line.last()) =~= line);
        assert((t + seq!['\n'] + line).last() == line.last());
        let rest = split_on(t + seq!['\n'] + shorter, '\n');
        assert(rest == split_on(t, '\n').push(shorter));
        assert(rest.last() == shorter);
        assert(rest.len() - 1 == split_on(t, '\n').len());
        assert(split_on(t, '\n').push(shorter).update(
            split_on(t, '\n').len() as int,
            shorter.push(line.last()),
        ) =~= split_on(t, '\n').push(line));
    }
}

/// A line added at the end of a `pyvenv.cfg` acts on the fields the text
/// before it set: for a key it names, the later line wins.
pub proof fn lemma_later_line_wins(text: Seq<char>, line: Seq<char>)
    requires
        !line.contains('\n'),
    ensures
        parse_config(text + seq!['\n'] + line) == apply_config_line(parse_config(text), line),
{
    lemma_split_on_append_line(text, line);
    assert(split_on(text, '\n').push(line).drop_last() =~= split_on(text, '\n'));
}

/// The package list is sorted and holds each label of the entries exactly
/// as often as the entries give it.
pub proof fn lemma_installed_packages_sorted(entries: Seq<Seq<char>>)
    ensures
        sorted_by(installed_packages(entries), text_order()),
        installed_packages(entries).to_multiset() == labels_of(entries).to_multiset(),
{
    lemma_text_order_total();
    labels_of(entries).lemma_sort_by_ensures(text_order());
}

/// What the search for environments does with one entry of the directory
/// walk.
#[derive(Debug, Clone, Copy, PartialEq, Eq, Structural)]
pub enum ScanAction {
    /// The entry could not be read: pass over it and go on.
    Skip,
    /// Not an environment: go on walking, into it if it is a directory.
    Descend,
    /// A directory holding `pyvenv.cfg`: record it as an environment and do
    /// not walk its contents.
    RecordAndSkipContents,
}

/// The decision for one entry of the walk: an entry that could not be read
/// is skipped; a directory holding the configuration file is an environment,
/// recorded without looking inside it (so no environment nested in another
/// is listed); anything else is walked on.
pub fn scan_entry(read_ok: bool, is_dir: bool, has_config_file: bool) -> (a: ScanAction)
    ensures
        a == (if !read_ok {
            ScanAction::Skip
        } else if is_dir && has_config_file {
            ScanAction::RecordAndSkipContents
        } else {
            ScanAction::Descend
        }),
{
    if !read_ok {
        ScanAction::Skip
    } else if is_dir && has_config_file {
        ScanAction::RecordAndSkipContents
    } else {
        ScanAction::Descend
    }
}

/// Of a burst of size requests (`first`, then `newer` in the order they
/// came), the one to measure: the newest.
pub fn latest_request<P>(first: P, newer: Vec<P>) -> (r: P)
    ensures
        r == (if newer@.len() == 0 {
            first
        } else {
            newer@.last()
        }),
{
    let mut newer = newer;
    match newer.pop() {
        Some(p) => p,
        None => first,
    }
}

/// `line` assigns `key`: it holds an `=`, and the text before the first one,
/// trimmed, is exactly `key`.
pub open spec fn assigns(line: Seq<char>, key: Seq<char>) -> bool {
    match split_once(line, '=') {
        Some((k, _)) => trim(k) == key,
        None => false,
    }
}

/// The value a line assigns: the text after its first `=`, trimmed.
pub open spec fn assigned_value(line: Seq<char>) -> Seq<char> {
    match split_once(line, '=') {
        Some((_, v)) => trim(v),
        None => Seq::empty(),
    }
}

/// The key of each field: 0 for the version, 1 for the executable, 2 for
/// whether the system's site packages are included.
pub open spec fn field_key(which: int) -> Seq<char> {
    if which == 0 {
        "version"@
    } else if which == 1 {
        "executable"@
    } else {
        "include-system-site-packages"@
    }
}

/// The field of `f` with the given number (see `field_key`).
pub open spec fn field_value(f: ConfigFields, which: int) -> Seq<char> {
    if which == 0 {
        f.version
    } else if which == 1 {
        f.executable
    } else {
        f.include_system_packages
    }
}

proof fn lemma_field_from_lines(lines: Seq<Seq<char>>, which: int)
    requires
        0 <= which <= 2,
    ensures
        (forall|i: int| 0 <= i < lines.len() ==> !assigns(#[trigger] lines[i], field_key(which)))
            ==> field_value(fields_of_lines(lines), which) == Seq::<char>::empty(),
        forall|i: int|
            0 <= i < lines.len() && assigns(#[trigger] lines[i], field_key(which)) && (forall|j: int|
                i < j < lines.len() ==> !assigns(#[trigger] lines[j], field_key(which)))
                ==> field_value(fields_of_lines(lines), which) == assigned_value(lines[i]),
    decreases lines.len(),
{
    reveal_strlit("version");
    reveal_strlit("executable");
    reveal_strlit("include-system-site-packages");
    assert("version"@[0] != "executable"@[0]);
    assert("version"@[0] != "include-system-site-packages"@[0]);
    assert("executable"@[0] != "include-system-site-packages"@[0]);
    if lines.len() > 0 {
        let rest = lines.drop_last();
        let last = lines.last();
        lemma_field_from_lines(rest, which);
        let before = fields_of_lines(rest);
        let after = fields_of_lines(lines);
        assert(after == apply_config_line(before, last));
        if assigns(last, field_key(which)) {
            assert(field_value(after, which) == assigned_value(last));
        } else {
            assert(field_value(after, which) == field_value(before, which));
        }
        assert forall|i: int|
            0 <= i < lines.len() && assigns(#[trigger] lines[i], field_key(which)) && (forall|j: int|
                i < j < lines.len() ==> !assigns(#[trigger] lines[j], field_key(which)))
            implies field_value(after, which) == assigned_value(lines[i]) by {
            if i < lines.len() - 1 {
                assert(!assigns(lines[lines.len() - 1], field_key(which)));
                assert(rest[i] == lines[i]);
                assert forall|j: int| i < j < rest.len() implies !assigns(
                    #[trigger] rest[j],
                    field_key(which),
                ) by {
                    assert(rest[j] == lines[j]);
                }
            }
        }
        if forall|i: int| 0 <= i < lines.len() ==> !assigns(#[trigger] lines[i], field_key(which)) {
            assert(!assigns(lines[lines.len() - 1], field_key(which)));
            assert forall|i: int| 0 <= i < rest.len() implies !assigns(
                #[trigger] rest[i],
                field_key(which),
            ) by {
                assert(rest[i] == lines[i]);
            }
        }
    }
}

/// What each field of a `pyvenv.cfg` is, in terms of its lines: the trimmed
/// value of the last line whose trimmed key is exactly `version`
/// (`executable`, `include-system-site-packages`), and empty where no line
/// has that key. No other line, whatever its key (`home`, `command`, ...),
/// sets any of the three.
pub proof fn lemma_pyvenv_fields(text: Seq<char>)
    ensures
        ({
            let lines = split_on(text, '\n');
            let f = parse_config(text);
            &&& forall|i: int|
                0 <= i < lines.len() && assigns(#[trigger] lines[i], "version"@) && (forall|j: int|
                    i < j < lines.len() ==> !assigns(#[trigger] lines[j], "version"@))
                    ==> f.version == assigned_value(lines[i])
            &&& (forall|i: int| 0 <= i < lines.len() ==> !assigns(#[trigger] lines[i], "version"@))
                ==> f.version == Seq::<char>::empty()
            &&& forall|i: int|
                0 <= i < lines.len() && assigns(#[trigger] lines[i], "executable"@) && (forall|
                    j: int,
                | i < j < lines.len() ==> !assigns(#[trigger] lines[j], "executable"@))
                    ==> f.executable == assigned_value(lines[i])
            &&& (forall|i: int|
                0 <= i < lines.len() ==> !assigns(#[trigger] lines[i], "executable"@))
                ==> f.executable == Seq::<char>::empty()
            &&& forall|i: int|
                0 <= i < lines.len() && assigns(#[trigger] lines[i], "include-system-site-packages"@)
                    && (forall|j: int|
                    i < j < lines.len() ==> !assigns(
                        #[trigger] lines[j],
                        "include-system-site-packages"@,
                    )) ==> f.include_system_packages == assigned_value(lines[i])
            &&& (forall|i: int|
                0 <= i < lines.len() ==> !assigns(
                    #[trigger] lines[i],
                    "include-system-site-packages"@,
                )) ==> f.include_system_packages == Seq::<char>::empty()
        }),
{
    let lines = split_on(text, '\n');
    lemma_field_from_lines(lines, 0);
    lemma_field_from_lines(lines, 1);
    lemma_field_from_lines(lines, 2);
}

/// `entry` names a distribution's metadata directory.
pub open spec fn is_dist_info(entry: Seq<char>) -> bool {
    ".dist-info"@.is_suffix_of(entry)
}

/// `is_dist_info` as a predicate.
pub open spec fn dist_info_entry() -> spec_fn(Seq<char>) -> bool {
    |e: Seq<char>| is_dist_info(e)
}

/// `label_text` as a function.
pub open spec fn entry_label() -> spec_fn(Seq<char>) -> Seq<char> {
    |e: Seq<char>| label_text(e)
}

/// The label of a `.dist-info` entry.
pub open spec fn label_text(entry: Seq<char>) -> Seq<char> {
    match package_label(entry) {
        Some(l) => l,
        None => Seq::empty(),
    }
}

proof fn lemma_labels_of_filter(entries: Seq<Seq<char>>)
    ensures
        labels_of(entries) == entries.filter(dist_info_entry()).map_values(entry_label()),
    decreases entries.len(),
{
    let p = dist_info_entry();
    let f = entry_label();
    reveal(Seq::filter);
    if entries.len() == 0 {
        assert(entries.filter(p) =~= Seq::<Seq<char>>::empty());
        assert(entries.filter(p).map_values(f) =~= Seq::<Seq<char>>::empty());
    } else {
        lemma_labels_of_filter(entries.drop_last());
        let sub = entries.drop_last().filter(p);
        if is_dist_info(entries.last()) {
            assert(entries.filter(p) == sub.push(entries.last()));
            assert(sub.push(entries.last()).map_values(f) =~= sub.map_values(f).push(
                label_text(entries.last()),
            ));
        } else {
            assert(entries.filter(p) == sub);
        }
    }
}

/// Every `.dist-info` entry of `site-packages`, and nothing else, gives the
/// package list one label: the list holds exactly the labels of those
/// entries (as often as they occur), so it is as long as there are
/// `.dist-info` entries, however many.
pub proof fn lemma_one_label_per_distribution(entries: Seq<Seq<char>>)
    ensures
        installed_packages(entries).to_multiset() == entries.filter(dist_info_entry()).map_values(
            entry_label(),
        ).to_multiset(),
        installed_packages(entries).len() == entries.filter(dist_info_entry()).len(),
{
    broadcast use vstd::seq_lib::group_to_multiset_ensures;
    lemma_labels_of_filter(entries);
    lemma_text_order_total();
    labels_of(entries).lemma_sort_by_ensures(text_order());
    assert(installed_packages(entries).to_multiset().len() == labels_of(entries).to_multiset().len());
}

/// The total of file lengths adds up: the total of two lists one after the
/// other is the sum of their totals, and one file's total is its length.
pub proof fn lemma_total_length_adds(s: Seq<u64>, t: Seq<u64>)
    ensures
        total_length(s + t) == total_length(s) + total_length(t),
        forall|x: u64| #[trigger] total_length(seq![x]) == x,
    decreases t.len(),
{
    assert forall|x: u64| #[trigger] total_length(seq![x]) == x by {
        assert(seq![x].drop_last() =~= Seq::<u64>::empty());
        assert(seq![x].last() == x);
        assert(total_length(Seq::<u64>::empty()) == 0);
    }
    if t.len() == 0 {
        assert(s + t =~= s);
    } else {
        lemma_total_length_adds(s, t.drop_last());
        assert((s + t).drop_last() =~= s + t.drop_last());
        assert((s + t).last() == t.last());
    }
}

} // verus!
