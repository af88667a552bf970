//! The inputs a run can read, as the input list names them: the times the list
//! covers and, for each time and input variable, the file to read.
//!
//! A later line naming the same time and variable replaces the earlier file.
//! A time enters the timeline as soon as a `.zbin` name carries it, even when
//! its variable is unknown.

use vstd::prelude::*;

use crate::inputs::{ends_with_zbin, name_outcome, names_zbin, parse_line, reads_line, InputFile, InputLine, InputNameError};
use crate::variables::InputVariableName;

verus! {

/// The time and variable an input file is filed under.
pub open spec fn file_key(file: InputFile) -> (i64, InputVariableName) {
    (file.time, file.variable)
}

/// The file filed under each key, a later file replacing an earlier one.
pub open spec fn files_by_key(files: Seq<InputFile>) -> Map<(i64, InputVariableName), InputFile>
    decreases files.len(),
{
    if files.len() == 0 {
        Map::empty()
    } else {
        files_by_key(files.drop_last()).insert(file_key(files.last()), files.last())
    }
}

/// No two files share a key.
pub open spec fn keys_distinct(files: Seq<InputFile>) -> bool {
    forall|i: int, j: int|
        0 <= i < j < files.len() ==> file_key(#[trigger] files[i]) != file_key(#[trigger] files[j])
}

/// Each time is later than the one before it.
pub open spec fn strictly_increasing(times: Seq<i64>) -> bool {
    forall|i: int, j: int| 0 <= i < j < times.len() ==> #[trigger] times[i] < #[trigger] times[j]
}

/// With distinct keys, each file is the one filed under its key, and every key
/// filed belongs to one of the files.
proof fn lemma_files_by_key(files: Seq<InputFile>)
    requires
        keys_distinct(files),
    ensures
        forall|i: int|
            0 <= i < files.len() ==> files_by_key(files).contains_key(file_key(#[trigger] files[i]))
                && files_by_key(files)[file_key(files[i])] == files[i],
        forall|k: (i64, InputVariableName)|
            #[trigger] files_by_key(files).contains_key(k) ==> exists|i: int|
                0 <= i < files.len() && file_key(#[trigger] files[i]) == k,
    decreases files.len(),
{
    if files.len() > 0 {
        let rest = files.drop_last();
        let n = files.len() - 1;
        assert forall|i: int, j: int| 0 <= i < j < rest.len() implies file_key(#[trigger] rest[i]) != file_key(
            #[trigger] rest[j],
        ) by {
            assert(rest[i] == files[i] && rest[j] == files[j]);
        }
        lemma_files_by_key(rest);
        assert forall|i: int| 0 <= i < files.len() implies files_by_key(files).contains_key(
            file_key(#[trigger] files[i]),
        ) && files_by_key(files)[file_key(files[i])] == files[i] by {
            if i < n {
                assert(rest[i] == files[i]);
                assert(file_key(files[i]) != file_key(files[n]));
            }
        }
        assert forall|k: (i64, InputVariableName)| #[trigger] files_by_key(files).contains_key(k) implies exists|i: int|
            0 <= i < files.len() && file_key(#[trigger] files[i]) == k by {
            if k == file_key(files[n]) {
                assert(file_key(files[n]) == k);
            } else {
                assert(files_by_key(rest).contains_key(k));
                let i = choose|i: int| 0 <= i < rest.len() && file_key(#[trigger] rest[i]) == k;
                assert(rest[i] == files[i]);
            }
        }
    }
}

/// Replacing a file by one of the same key replaces what that key maps to.
proof fn lemma_files_by_key_update(files: Seq<InputFile>, i: int, file: InputFile)
    requires
        keys_distinct(files),
        0 <= i < files.len(),
        file_key(files[i]) == file_key(file),
    ensures
        files_by_key(files.update(i, file)) == files_by_key(files).insert(file_key(file), file),
    decreases files.len(),
{
    let updated = files.update(i, file);
    let rest = files.drop_last();
    if i == files.len() - 1 {
        assert(updated.drop_last() =~= rest);
        assert(files_by_key(updated) =~= files_by_key(files).insert(file_key(file), file));
    } else {
        assert(updated.drop_last() =~= rest.update(i, file));
        assert forall|a: int, b: int| 0 <= a < b < rest.len() implies file_key(#[trigger] rest[a]) != file_key(
            #[trigger] rest[b],
        ) by {
            assert(rest[a] == files[a] && rest[b] == files[b]);
        }
        lemma_files_by_key_update(rest, i, file);
        assert(file_key(files.last()) != file_key(file));
        assert(files_by_key(updated) =~= files_by_key(files).insert(file_key(file), file));
    }
}

/// The inputs named by an input list.
pub struct InputCatalog {
    times: Vec<i64>,
    files: Vec<InputFile>,
}

impl InputCatalog {
    /// The times the list covers, earliest first.
    pub closed spec fn timeline_view(&self) -> Seq<i64> {
        self.times@
    }

    /// The file to read for each time and variable.
    pub closed spec fn files_view(&self) -> Map<(i64, InputVariableName), InputFile> {
        files_by_key(self.files@)
    }

    pub closed spec fn wf(&self) -> bool {
        &&& strictly_increasing(self.times@)
        &&& keys_distinct(self.files@)
        &&& forall|i: int| 0 <= i < self.files@.len() ==> self.times@.contains(#[trigger] self.files@[i].time)
    }

    /// A catalog of no inputs.
    pub fn new() -> (catalog: InputCatalog)
        ensures
            catalog.wf(),
            catalog.timeline_view() == Seq::<i64>::empty(),
            catalog.files_view() == Map::<(i64, InputVariableName), InputFile>::empty(),
    {
        InputCatalog { times: Vec::new(), files: Vec::new() }
    }

    /// Puts `time` on the timeline, where it is not already.
    fn add_time(&mut self, time: i64)
        requires
            old(self).wf(),
        ensures
            final(self).wf(),
            strictly_increasing(final(self).times@),
            forall|t: i64| final(self).times@.contains(t) <==> (old(self).times@.contains(t) || t == time),
            final(self).files@ == old(self).files@,
    {
        let n = self.times.len();
        let mut p: usize = 0;
        while p < n && self.times[p] < time
            invariant
                n == self.times@.len(),
                p <= n,
                forall|j: int| 0 <= j < p ==> self.times@[j] < time,
            decreases n - p,
        {
            p += 1;
        }
        if p < n && self.times[p] == time {
            proof {
                assert forall|t: i64| self.times@.contains(t) <==> (self.times@.contains(t) || t == time) by {
                    if t == time {
                        assert(self.times@[p as int] == time);
                    }
                }
            }
            return;
        }
        let ghost before = self.times@;
        proof {
            before.insert_ensures(p as int, time);
            assert(p < n ==> before[p as int] > time);
        }
        self.times.insert(p, time);
        proof {
            let after = self.times@;
            assert(after == before.insert(p as int, time));
            assert forall|i: int, j: int| 0 <= i < j < after.len() implies #[trigger] after[i] < #[trigger] after[j] by {
                if j < p {
                    assert(after[i] == before[i] && after[j] == before[j]);
                } else if j == p {
                    assert(after[i] == before[i]);
                } else if i < p {
                    assert(after[i] == before[i] && after[j] == before[j - 1]);
                    assert(before[p as int] <= before[j - 1]);
                } else if i == p {
                    assert(after[j] == before[j - 1]);
                    assert(before[p as int] <= before[j - 1]);
                } else {
                    assert(after[i] == before[i - 1] && after[j] == before[j - 1]);
                }
            }
            assert forall|t: i64| after.contains(t) <==> (before.contains(t) || t == time) by {
                if after.contains(t) {
                    let k = choose|k: int| 0 <= k < after.len() && after[k] == t;
                    if k < p {
                        assert(before[k] == t);
                    } else if k > p {
                        assert(before[k - 1] == t);
                    }
                }
                if before.contains(t) {
                    let k = choose|k: int| 0 <= k < before.len() && before[k] == t;
                    if k < p {
                        assert(after[k] == t);
                    } else {
                        assert(after[k + 1] == t);
                    }
                }
                if t == time {
                    assert(after[p as int] == t);
                }
            }
            assert forall|i: int| 0 <= i < self.files@.len() implies after.contains(#[trigger] self.files@[i].time) by {
                assert(before.contains(self.files@[i].time));
            }
        }
    }

    /// Files `file` under its time and variable, replacing the file filed there.
    fn add_file(&mut self, file: InputFile)
        requires
            old(self).wf(),
            old(self).times@.contains(file.time),
        ensures
            final(self).wf(),
            final(self).times@ == old(self).times@,
            final(self).files_view() == old(self).files_view().insert(file_key(file), file),
    {
        let n = self.files.len();
        let mut i: usize = 0;
        while i < n
            invariant
                old(self).wf(),
                old(self).times@.contains(file.time),
                self.files@ == old(self).files@,
                self.times@ == old(self).times@,
                n == self.files@.len(),
                i <= n,
                forall|j: int| 0 <= j < i ==> file_key(#[trigger] self.files@[j]) != file_key(file),
            decreases n - i,
        {
            if self.files[i].time == file.time && self.files[i].variable == file.variable {
                let ghost before = self.files@;
                proof {
                    lemma_files_by_key_update(before, i as int, file);
                }
                self.files.set(i, file);
                proof {
                    let after = self.files@;
                    assert(after == before.update(i as int, file));
                    assert forall|a: int, b: int| 0 <= a < b < after.len() implies file_key(#[trigger] after[a])
                        != file_key(#[trigger] after[b]) by {
                        assert(file_key(after[a]) == file_key(before[a]));
                        assert(file_key(after[b]) == file_key(before[b]));
                    }
                    assert forall|k: int| 0 <= k < after.len() implies self.times@.contains(#[trigger] after[k].time) by {
                        assert(after[k].time == before[k].time);
                    }
                }
                return;
            }
            i += 1;
        }
        let ghost before = self.files@;
        self.files.push(file);
        proof {
            let after = self.files@;
            assert(after.drop_last() =~= before);
            assert forall|a: int, b: int| 0 <= a < b < after.len() implies file_key(#[trigger] after[a]) != file_key(
                #[trigger] after[b],
            ) by {
                assert(after[a] == before[a]);
                if b < before.len() {
                    assert(after[b] == before[b]);
                }
            }
            assert forall|k: int| 0 <= k < after.len() implies self.times@.contains(#[trigger] after[k].time) by {
                if k < before.len() {
                    assert(after[k] == before[k]);
                }
            }
        }
    }

    /// Reads one line of the input list into the catalog, and says what the
    /// line held.
    pub fn add_line(&mut self, line: &str) -> (outcome: InputLine)
        requires
            old(self).wf(),
        ensures
            final(self).wf(),
            reads_line(line@, outcome),
            if names_zbin(line@) && name_outcome(line@) is Ok {
                forall|t: i64|
                    #![trigger final(self).timeline_view().contains(t)]
                    final(self).timeline_view().contains(t) <==> (old(self).timeline_view().contains(t)
                        || t == name_outcome(line@)->Ok_0.0)
            } else {
                final(self).timeline_view() == old(self).timeline_view()
            },
            match outcome {
                InputLine::File(file) => final(self).files_view() == old(self).files_view().insert(file_key(file), file),
                _ => final(self).files_view() == old(self).files_view(),
            },
    {
        if !ends_with_zbin(line) {
            return InputLine::Ignored;
        }
        match parse_line(line) {
            Err(e) => InputLine::Invalid(e),
            Ok((grid_name, variable_name, time)) => {
                self.add_time(time);
                match InputVariableName::from_name(variable_name.as_str()) {
                    None => InputLine::Invalid(InputNameError::Variable),
                    Some(variable) => {
                        let file = InputFile { time, grid_name, variable, path: line.to_owned() };
                        let filed = InputFile {
                            time,
                            grid_name: file.grid_name.clone(),
                            variable,
                            path: file.path.clone(),
                        };
                        self.add_file(filed);
                        InputLine::File(file)
                    },
                }
            },
        }
    }

    /// The times the list covers, earliest first, each once.
    pub fn timeline(&self) -> (times: Vec<i64>)
        requires
            self.wf(),
        ensures
            times@ == self.timeline_view(),
            strictly_increasing(times@),
    {
        let mut times: Vec<i64> = Vec::new();
        let mut i: usize = 0;
        while i < self.times.len()
            invariant
                i <= self.times@.len(),
                times@ == self.times@.take(i as int),
            decreases self.times@.len() - i,
        {
            times.push(self.times[i]);
            i += 1;
            proof {
                assert(times@ =~= self.times@.take(i as int));
            }
        }
        proof {
            assert(times@ =~= self.times@);
        }
        times
    }

    /// The file to read for `variable` at `time`, if the list names one.
    pub fn file_for(&self, time: i64, variable: InputVariableName) -> (file: Option<&InputFile>)
        requires
            self.wf(),
        ensures
            match file {
                Some(f) => self.files_view().contains_key((time, variable)) && *f == self.files_view()[(time, variable)],
                None => !self.files_view().contains_key((time, variable)),
            },
    {
        let mut i: usize = 0;
        while i < self.files.len()
            invariant
                self.wf(),
                i <= self.files@.len(),
                forall|j: int| 0 <= j < i ==> file_key(#[trigger] self.files@[j]) != (time, variable),
            decreases self.files@.len() - i,
        {
            if self.files[i].time == time && self.files[i].variable == variable {
                proof {
                    lemma_files_by_key(self.files@);
                    assert(file_key(self.files@[i as int]) == (time, variable));
                }
                return Some(&self.files[i]);
            }
            i += 1;
        }
        proof {
            lemma_files_by_key(self.files@);
        }
        None
    }
}

/// Every time for which the list names a file is on the timeline.
pub proof fn law_input_files_are_on_timeline(catalog: &InputCatalog, time: i64, variable: InputVariableName)
    requires
        catalog.wf(),
        catalog.files_view().contains_key((time, variable)),
    ensures
        catalog.timeline_view().contains(time),
{
    lemma_files_by_key(catalog.files@);
    let i = choose|i: int| 0 <= i < catalog.files@.len() && file_key(#[trigger] catalog.files@[i]) == (time, variable);
    assert(catalog.files@[i].time == time);
}

} // verus!
