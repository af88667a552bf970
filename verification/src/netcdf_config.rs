//! How NetCDF inputs are read: which file variable holds each input
//! variable, with what time offset, and the names of the coordinates.

use vstd::prelude::*;

use crate::text::{chars_of, same_text, trim, trim_range};
use crate::tokens::{pieces, split_on, texts};
use crate::variables::InputVariableName;

verus! {

broadcast use vstd::string::group_string_axioms;

/// A variable of a NetCDF input: its name in the file and the offset, in
/// seconds, applied to its time line.
#[derive(Clone, Debug)]
pub struct VariableEntry {
    pub name: String,
    pub offset: i64,
}

impl VariableEntry {
    pub fn new(name: String, offset: i64) -> (entry: VariableEntry)
        ensures
            entry.name == name,
            entry.offset == offset,
    {
        VariableEntry { name, offset }
    }
}

/// The entry of `variable` in `map`: the last one listed for it.
pub open spec fn entry_of(map: Seq<(InputVariableName, VariableEntry)>, variable: InputVariableName) -> Option<(Seq<char>, i64)>
    decreases map.len(),
{
    if map.len() == 0 {
        None
    } else if map.last().0 == variable {
        Some((map.last().1.name@, map.last().1.offset))
    } else {
        entry_of(map.drop_last(), variable)
    }
}

proof fn lemma_entry_of_push(map: Seq<(InputVariableName, VariableEntry)>, e: (InputVariableName, VariableEntry), v: InputVariableName)
    ensures
        entry_of(map.push(e), v) == (if e.0 == v { Some((e.1.name@, e.1.offset)) } else { entry_of(map, v) }),
{
    assert(map.push(e).drop_last() =~= map);
    assert(map.push(e).last() == e);
}

/// How NetCDF inputs are read.
#[derive(Clone, Debug)]
pub struct NetCdfInputConfiguration {
    pub variable_map: Vec<(InputVariableName, VariableEntry)>,
    pub lat_name: String,
    pub lon_name: String,
    pub time_name: String,
    pub coords_dims: Option<(String, String)>,
    pub time_units: Option<String>,
}

/// Every input variable read from the file variable of its own name, with
/// no offset.
pub fn default_variable_map() -> (map: Vec<(InputVariableName, VariableEntry)>)
    ensures
        forall|v: InputVariableName| #[trigger] entry_of(map@, v) == Some((v.spec_name(), 0i64)),
{
    let all = InputVariableName::all();
    let mut map: Vec<(InputVariableName, VariableEntry)> = Vec::new();
    let mut k: usize = 0;
    while k < all.len()
        invariant
            all@.len() == 18,
            forall|v: InputVariableName| #[trigger] all@[v.rank()] == v,
            forall|j: int| 0 <= j < 18 ==> (#[trigger] all@[j]).rank() == j,
            k <= 18,
            forall|v: InputVariableName| v.rank() < k ==> #[trigger] entry_of(map@, v) == Some((v.spec_name(), 0i64)),
            forall|v: InputVariableName| v.rank() >= k ==> #[trigger] entry_of(map@, v) is None,
        decreases 18 - k,
    {
        let v = all[k];
        let entry = VariableEntry::new(v.name().to_owned(), 0);
        let ghost before = map@;
        let ghost pushed = (v, entry);
        map.push((v, entry));
        proof {
            assert(map@ == before.push(pushed));
            assert(v.rank() == k);
            assert forall|w: InputVariableName| w.rank() < k + 1 implies #[trigger] entry_of(map@, w) == Some((w.spec_name(), 0i64)) by {
                lemma_entry_of_push(before, pushed, w);
                if w.rank() == k {
                    assert(all@[w.rank()] == w);
                }
            }
            assert forall|w: InputVariableName| w.rank() >= k + 1 implies #[trigger] entry_of(map@, w) is None by {
                lemma_entry_of_push(before, pushed, w);
            }
        }
        k += 1;
    }
    map
}

impl Default for NetCdfInputConfiguration {
    fn default() -> (config: Self)
        ensures
            forall|v: InputVariableName| #[trigger] entry_of(config.variable_map@, v) == Some((v.spec_name(), 0i64)),
            config.lat_name@ == "latitude"@,
            config.lon_name@ == "longitude"@,
            config.time_name@ == "time"@,
            config.coords_dims is None,
            config.time_units is None,
    {
        NetCdfInputConfiguration {
            variable_map: default_variable_map(),
            lat_name: "latitude".to_owned(),
            lon_name: "longitude".to_owned(),
            time_name: "time".to_owned(),
            coords_dims: None,
            time_units: None,
        }
    }
}

/// A configured variable: its input name, its file name and its offset.
#[derive(Clone, Debug)]
pub struct VariableMapEntry {
    pub internal_name: String,
    pub name: String,
    pub offset: i64,
}

/// Whether `text` names `variable`: the first input variable, in declaration
/// order, of that name.
pub open spec fn names_variable(text: Seq<char>, variable: InputVariableName) -> bool {
    variable.spec_name() == text && forall|w: InputVariableName| w.rank() < variable.rank() ==> w.spec_name() != text
}

/// The entry that the last listing of `variable` among `entries` gives.
pub open spec fn listed_entry(entries: Seq<VariableMapEntry>, variable: InputVariableName) -> Option<(Seq<char>, i64)>
    decreases entries.len(),
{
    if entries.len() == 0 {
        None
    } else if names_variable(entries.last().internal_name@, variable) {
        Some((entries.last().name@, entries.last().offset))
    } else {
        listed_entry(entries.drop_last(), variable)
    }
}

/// The variable map of a configuration's variable list: entries naming no
/// input variable are left out, and a variable listed twice keeps its last
/// entry. Variables not listed have no entry.
pub fn variable_map_of(entries: &Vec<VariableMapEntry>) -> (map: Vec<(InputVariableName, VariableEntry)>)
    ensures
        forall|v: InputVariableName| #[trigger] entry_of(map@, v) == listed_entry(entries@, v),
{
    let mut map: Vec<(InputVariableName, VariableEntry)> = Vec::new();
    let mut k: usize = 0;
    while k < entries.len()
        invariant
            k <= entries@.len(),
            forall|v: InputVariableName| #[trigger] entry_of(map@, v) == listed_entry(entries@.take(k as int), v),
        decreases entries@.len() - k,
    {
        proof {
            assert(entries@.take(k + 1).drop_last() =~= entries@.take(k as int));
            assert(entries@.take(k + 1).last() == entries@[k as int]);
        }
        let ghost taken = entries@.take(k + 1);
        match InputVariableName::from_name(entries[k].internal_name.as_str()) {
            None => {
                proof {
                    assert forall|v: InputVariableName| #[trigger] entry_of(map@, v) == listed_entry(taken, v) by {
                        assert(!names_variable(entries@[k as int].internal_name@, v));
                    }
                }
            },
            Some(variable) => {
                let entry = VariableEntry::new(entries[k].name.clone(), entries[k].offset);
                let ghost before = map@;
                let ghost pushed = (variable, entry);
                map.push((variable, entry));
                proof {
                    assert(map@ == before.push(pushed));
                    let text = entries@[k as int].internal_name@;
                    assert(names_variable(text, variable));
                    assert forall|v: InputVariableName| #[trigger] entry_of(map@, v) == listed_entry(taken, v) by {
                        lemma_entry_of_push(before, pushed, v);
                        if v != variable && names_variable(text, v) {
                            if v.rank() < variable.rank() {
                                assert(v.spec_name() != text);
                            } else if v.rank() > variable.rank() {
                                assert(variable.spec_name() != text);
                            } else {
                                lemma_rank_identifies(v, variable);
                            }
                        }
                    }
                }
            },
        }
        k += 1;
    }
    proof {
        assert(entries@.take(k as int) =~= entries@);
    }
    map
}

/// Different input variables have different places in declaration order.
proof fn lemma_rank_identifies(a: InputVariableName, b: InputVariableName)
    requires
        a.rank() == b.rank(),
    ensures
        a == b,
{
}

/// The time units a NetCDF time axis can be counted in.
#[derive(Clone, Copy, Debug, PartialEq, Eq, Structural)]
pub enum TimeUnit {
    Year,
    Month,
    Day,
    Hour,
    Minute,
    Second,
    Millisecond,
    Microsecond,
    Nanosecond,
}

/// An offset of `offset_seconds` seconds expressed in `unit`, rounded toward
/// zero; none for units of variable length (years, months).
pub open spec fn spec_offset_in_unit(unit: TimeUnit, offset_seconds: int) -> Option<int> {
    match unit {
        TimeUnit::Day => Some(truncated_div(offset_seconds, 86400)),
        TimeUnit::Hour => Some(truncated_div(offset_seconds, 3600)),
        TimeUnit::Minute => Some(truncated_div(offset_seconds, 60)),
        TimeUnit::Second => Some(offset_seconds),
        TimeUnit::Millisecond => Some(offset_seconds * 1000),
        TimeUnit::Microsecond => Some(offset_seconds * 1_000_000),
        TimeUnit::Nanosecond => Some(offset_seconds * 1_000_000_000),
        _ => None,
    }
}

/// `a / b` rounded toward zero.
pub open spec fn truncated_div(a: int, b: int) -> int {
    if a >= 0 { a / b } else { -((-a) / b) }
}

/// An offset in seconds expressed in the unit of a time axis.
pub fn offset_in_unit(unit: TimeUnit, offset_seconds: i64) -> (offset: Option<i64>)
    requires
        spec_offset_in_unit(unit, offset_seconds as int) matches Some(o) ==> i64::MIN <= o <= i64::MAX,
    ensures
        match spec_offset_in_unit(unit, offset_seconds as int) {
            Some(o) => offset == Some(o as i64),
            None => offset is None,
        },
{
    match unit {
        TimeUnit::Day => Some(offset_seconds / 86400),
        TimeUnit::Hour => Some(offset_seconds / 3600),
        TimeUnit::Minute => Some(offset_seconds / 60),
        TimeUnit::Second => Some(offset_seconds),
        TimeUnit::Millisecond => Some(offset_seconds * 1000),
        TimeUnit::Microsecond => Some(offset_seconds * 1_000_000),
        TimeUnit::Nanosecond => Some(offset_seconds * 1_000_000_000),
        _ => None,
    }
}

/// The value after the first `:` of a `key:value` pair, trimmed.
pub open spec fn pair_key(pair: Seq<char>) -> Seq<char> {
    trim(pieces(pair, ':')[0])
}

pub open spec fn pair_value(pair: Seq<char>) -> Seq<char> {
    trim(pieces(pair, ':')[1])
}

/// Whether every `,`-separated pair of `text` has a `:`.
pub open spec fn pairs_well_formed(text: Seq<char>) -> bool {
    forall|k: int| 0 <= k < pieces(text, ',').len() ==> #[trigger] pieces(pieces(text, ',')[k], ':').len() >= 2
}

/// The value of the last pair with `key`, if any.
pub open spec fn last_pair_value(pairs: Seq<Seq<char>>, key: Seq<char>) -> Option<Seq<char>>
    decreases pairs.len(),
{
    if pairs.len() == 0 {
        None
    } else if pair_key(pairs.last()) == key {
        Some(pair_value(pairs.last()))
    } else {
        last_pair_value(pairs.drop_last(), key)
    }
}

/// The trimmed text of `piece`.
fn trimmed(piece: &str) -> (t: String)
    ensures
        t@ == trim(piece@),
{
    let cs = chars_of(piece);
    let (a, b) = trim_range(&cs, 0, cs.len());
    proof {
        assert(cs@.subrange(0, cs@.len() as int) =~= piece@);
    }
    let s = vstd::string::StrSliceExecFns::substring_char(piece, a, b).to_owned();
    proof {
        assert(s@ =~= cs@.subrange(a as int, b as int));
    }
    s
}

/// The coordinate names of a `key:value,...` description: `latitude`,
/// `longitude` and `time`, each defaulting to its own key; every input
/// variable is read from the file variable of its own name.
///
/// Each pair must have a `:`, and no `coords_dims` may be given: a pair cannot
/// hold the two dimension names it needs.
pub fn configuration_from_text(text: &str) -> (config: NetCdfInputConfiguration)
    requires
        pairs_well_formed(text@),
        last_pair_value(pieces(text@, ','), "coords_dims"@) is None,
    ensures
        config.lat_name@ == (match last_pair_value(pieces(text@, ','), "latitude"@) { Some(v) => v, None => "latitude"@ }),
        config.lon_name@ == (match last_pair_value(pieces(text@, ','), "longitude"@) { Some(v) => v, None => "longitude"@ }),
        config.time_name@ == (match last_pair_value(pieces(text@, ','), "time"@) { Some(v) => v, None => "time"@ }),
        config.coords_dims is None,
        config.time_units is None,
        forall|v: InputVariableName| #[trigger] entry_of(config.variable_map@, v) == Some((v.spec_name(), 0i64)),
{
    let pairs = split_on(text, ',');
    let ghost ps = texts(pairs@);
    let mut lat: Option<String> = None;
    let mut lon: Option<String> = None;
    let mut time: Option<String> = None;
    let mut k: usize = 0;
    while k < pairs.len()
        invariant
            ps == texts(pairs@),
            ps == pieces(text@, ','),
            pairs_well_formed(text@),
            k <= pairs@.len(),
            match lat { Some(v) => last_pair_value(ps.take(k as int), "latitude"@) == Some(v@), None => last_pair_value(ps.take(k as int), "latitude"@) is None },
            match lon { Some(v) => last_pair_value(ps.take(k as int), "longitude"@) == Some(v@), None => last_pair_value(ps.take(k as int), "longitude"@) is None },
            match time { Some(v) => last_pair_value(ps.take(k as int), "time"@) == Some(v@), None => last_pair_value(ps.take(k as int), "time"@) is None },
        decreases pairs@.len() - k,
    {
        let kv = split_on(pairs[k].as_str(), ':');
        proof {
            assert(ps[k as int] == pairs@[k as int]@);
            assert(pieces(pieces(text@, ',')[k as int], ':').len() >= 2);
            assert(texts(kv@).len() == kv@.len());
            assert(ps.take(k + 1).drop_last() =~= ps.take(k as int));
            assert(ps.take(k + 1).last() == ps[k as int]);
        }
        let key = trimmed(kv[0].as_str());
        let value = trimmed(kv[1].as_str());
        if same_text(key.as_str(), "latitude") {
            lat = Some(value.clone());
        }
        if same_text(key.as_str(), "longitude") {
            lon = Some(value.clone());
        }
        if same_text(key.as_str(), "time") {
            time = Some(value);
        }
        k += 1;
    }
    proof {
        assert(ps.take(k as int) =~= ps);
    }
    NetCdfInputConfiguration {
        variable_map: default_variable_map(),
        lat_name: match lat { Some(v) => v, None => "latitude".to_owned() },
        lon_name: match lon { Some(v) => v, None => "longitude".to_owned() },
        time_name: match time { Some(v) => v, None => "time".to_owned() },
        coords_dims: None,
        time_units: None,
    }
}

/// The configured variable that a file variable named `name` holds, with its
/// offset: the first entry of `map` with that file name.
pub open spec fn entry_for_file_name(map: Seq<(InputVariableName, VariableEntry)>, name: Seq<char>)
    -> Option<(InputVariableName, i64)>
    decreases map.len(),
{
    if map.len() == 0 {
        None
    } else if map[0].1.name@ == name {
        Some((map[0].0, map[0].1.offset))
    } else {
        entry_for_file_name(map.drop_first(), name)
    }
}

/// The configured variables a file holds, in the order of its variables,
/// each with its offset.
pub open spec fn file_variables_of(map: Seq<(InputVariableName, VariableEntry)>, names: Seq<Seq<char>>)
    -> Seq<(InputVariableName, i64)>
    decreases names.len(),
{
    if names.len() == 0 {
        Seq::empty()
    } else {
        let before = file_variables_of(map, names.drop_last());
        match entry_for_file_name(map, names.last()) {
            Some(found) => before.push(found),
            None => before,
        }
    }
}

fn find_file_name(map: &Vec<(InputVariableName, VariableEntry)>, name: &str) -> (found: Option<(InputVariableName, i64)>)
    ensures
        found == entry_for_file_name(map@, name@),
{
    let mut k: usize = 0;
    assert(map@.skip(0) =~= map@);
    while k < map.len()
        invariant
            k <= map@.len(),
            entry_for_file_name(map@, name@) == entry_for_file_name(map@.skip(k as int), name@),
        decreases map@.len() - k,
    {
        proof {
            assert(map@.skip(k as int).drop_first() =~= map@.skip(k + 1));
            assert(map@.skip(k as int)[0] == map@[k as int]);
        }
        if same_text(map[k].1.name.as_str(), name) {
            return Some((map[k].0, map[k].1.offset));
        }
        k += 1;
    }
    None
}

/// Which configured variables a NetCDF file holds, given the names of its
/// variables in file order, and the time offset to apply: that of the first
/// variable found. A file holding none of them is not an input (`None`).
pub fn file_variables(names: &Vec<String>, map: &Vec<(InputVariableName, VariableEntry)>)
    -> (found: Option<(Vec<InputVariableName>, i64)>)
    ensures
        ({
            let matched = file_variables_of(map@, texts(names@));
            match found {
                None => matched.len() == 0,
                Some((variables, offset)) => matched.len() > 0
                    && variables@ == matched.map_values(|e: (InputVariableName, i64)| e.0)
                    && offset == matched[0].1,
            }
        }),
{
    let mut variables: Vec<InputVariableName> = Vec::new();
    let mut offset: Option<i64> = None;
    let mut k: usize = 0;
    while k < names.len()
        invariant
            k <= names@.len(),
            ({
                let matched = file_variables_of(map@, texts(names@.take(k as int)));
                &&& variables@ == matched.map_values(|e: (InputVariableName, i64)| e.0)
                &&& (offset is None <==> matched.len() == 0)
                &&& (offset matches Some(o) ==> o == matched[0].1)
            }),
        decreases names@.len() - k,
    {
        proof {
            assert(texts(names@.take(k + 1)).drop_last() =~= texts(names@.take(k as int)));
            assert(texts(names@.take(k + 1)).last() == names@[k as int]@);
        }
        let ghost before = file_variables_of(map@, texts(names@.take(k as int)));
        match find_file_name(map, names[k].as_str()) {
            Some((variable, entry_offset)) => {
                variables.push(variable);
                if offset.is_none() {
                    offset = Some(entry_offset);
                }
                proof {
                    let after = before.push((variable, entry_offset));
                    assert(after.map_values(|e: (InputVariableName, i64)| e.0)
                        =~= before.map_values(|e: (InputVariableName, i64)| e.0).push(variable));
                }
            },
            None => {},
        }
        k += 1;
    }
    proof {
        assert(names@.take(k as int) =~= names@);
    }
    match offset {
        None => None,
        Some(o) => Some((variables, o)),
    }
}

} // verus!
