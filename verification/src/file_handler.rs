use vstd::prelude::*;
use crate::numtext::{spec_udec, u64_to_string};
use crate::textops::{spec_trim, trim_str, str_eq};
use crate::vm::strs_dv;

verus! {

/// The line-oriented preprocessor: `ready_file` holds the trimmed
/// lines with blank lines and whole-line comments removed, in order;
/// `raw_file` holds every trimmed line, for diagnostics.
pub struct FileHandler {
    pub ready_file: Vec<String>,
    pub raw_file: Vec<String>,
}

/// A line survives preprocessing when it is non-empty and not a
/// comment.
pub open spec fn spec_keeps(s: Seq<char>) -> bool {
    s.len() > 0 && s[0] != '#'
}

/// The preprocessed file: each line trimmed, the surviving ones kept
/// in order.
pub open spec fn spec_ready(lines: Seq<Seq<char>>) -> Seq<Seq<char>>
    decreases lines.len(),
{
    if lines.len() == 0 {
        Seq::empty()
    } else {
        let rest = spec_ready(lines.drop_last());
        let t = spec_trim(lines.last());
        if spec_keeps(t) {
            rest.push(t)
        } else {
            rest
        }
    }
}

/// The text a fatal diagnostic is shown as: the one-based raw line,
/// the offending line, the catalogue text, and the pointer to the
/// error reference.
pub open spec fn spec_error_text(raw_line: nat, line: Seq<char>, error: Seq<char>) -> Seq<char> {
    spec_udec(raw_line + 1) + "|"@ + line + "\nError "@ + error
        + "\nFor details, visit: https://cylium.site/materials/errors"@
}

/// The first raw line that matches the preprocessed line, or the
/// given fallback when none does.
pub open spec fn spec_first_match(raw: Seq<Seq<char>>, s: Seq<char>, from: int, fallback: int) -> int
    decreases raw.len() - from,
{
    if from < 0 || from >= raw.len() {
        fallback
    } else if raw[from] == s {
        from
    } else {
        spec_first_match(raw, s, from + 1, fallback)
    }
}

impl FileHandler {
    pub open spec fn raw_view(&self) -> Seq<Seq<char>> {
        strs_dv(self.raw_file@)
    }

    pub open spec fn ready_view(&self) -> Seq<Seq<char>> {
        strs_dv(self.ready_file@)
    }

    pub fn new(file: Vec<String>) -> (r: FileHandler)
        ensures
            r.raw_view().len() == file@.len(),
            forall|i: int|
                0 <= i < file@.len() ==> r.raw_view()[i] == spec_trim(#[trigger] file@[i]@),
            r.ready_view() == spec_ready(strs_dv(file@)),
    {
        let mut raw: Vec<String> = Vec::new();
        let mut ready: Vec<String> = Vec::new();
        let mut i: usize = 0;
        proof {
            assert(strs_dv(file@).subrange(0, 0) =~= Seq::<Seq<char>>::empty());
            assert(strs_dv(ready@) =~= spec_ready(strs_dv(file@).subrange(0, 0)));
        }
        while i < file.len()
            invariant
                i <= file@.len(),
                raw@.len() == i as int,
                forall|j: int|
                    0 <= j < i ==> strs_dv(raw@)[j] == spec_trim(#[trigger] file@[j]@),
                strs_dv(ready@) == spec_ready(strs_dv(file@).subrange(0, i as int)),
            decreases file@.len() - i,
        {
            let t = trim_str(file[i].as_str());
            let keep = t.as_str().unicode_len() > 0 && t.as_str().get_char(0) != '#';
            let ghost readyv = ready@;
            let ghost rawv = raw@;
            if keep {
                ready.push(t.clone());
            }
            raw.push(t);
            i = i + 1;
            proof {
                let pre = strs_dv(file@).subrange(0, i - 1);
                let cur = strs_dv(file@).subrange(0, i as int);
                assert(cur.drop_last() =~= pre);
                assert(cur.last() == file@[i - 1]@);
                if keep {
                    assert(strs_dv(ready@) =~= strs_dv(readyv).push(spec_trim(file@[i - 1]@)));
                } else {
                    assert(strs_dv(ready@) =~= strs_dv(readyv));
                }
                assert(forall|j: int|
                    0 <= j < i ==> strs_dv(raw@)[j] == spec_trim(#[trigger] file@[j]@)) by {
                    assert(forall|j: int| 0 <= j < i - 1 ==> raw@[j] == rawv[j]);
                }
            }
        }
        proof {
            assert(strs_dv(file@).subrange(0, file@.len() as int) =~= strs_dv(file@));
        }
        FileHandler { ready_file: ready, raw_file: raw }
    }

    /// The diagnostic text for a raw line index.
    pub fn get_error(line_number: usize, line: &str, error: &str) -> (r: String)
        requires
            line_number < usize::MAX,
        ensures
            r@ == spec_error_text(line_number as nat, line@, error@),
    {
        let head = u64_to_string((line_number + 1) as u64);
        head.concat("|").concat(line).concat("\nError ").concat(error).concat(
            "\nFor details, visit: https://cylium.site/materials/errors",
        )
    }

    /// The diagnostic for a preprocessed line: shown with the number
    /// of the raw line it came from.
    pub fn show_error(&self, line_number: usize, error: &str) -> (r: String)
        requires
            line_number < self.ready_view().len(),
        ensures
            r@ == spec_error_text(
                spec_first_match(
                    self.raw_view(),
                    self.ready_view()[line_number as int],
                    0,
                    line_number as int,
                ) as nat,
                self.ready_view()[line_number as int],
                error@,
            ),
    {
        let line = &self.ready_file[line_number];
        let mut j: usize = 0;
        let mut found: usize = line_number;
        let mut have: bool = false;
        while j < self.raw_file.len()
            invariant
                j <= self.raw_file@.len(),
                !have ==> spec_first_match(
                    self.raw_view(),
                    self.ready_view()[line_number as int],
                    0,
                    line_number as int,
                ) == spec_first_match(
                    self.raw_view(),
                    self.ready_view()[line_number as int],
                    j as int,
                    line_number as int,
                ),
                have ==> found < j && spec_first_match(
                    self.raw_view(),
                    self.ready_view()[line_number as int],
                    0,
                    line_number as int,
                ) == found as int,
                line_number < self.ready_file@.len(),
                line@ == self.ready_view()[line_number as int],
            decreases self.raw_file@.len() - j,
        {
            if !have {
                if str_eq(self.raw_file[j].as_str(), line.as_str()) {
                    found = j;
                    have = true;
                }
            }
            j = j + 1;
        }
        if !have {
            found = line_number;
        }
        let cap = self.ready_file.len();
        let cap2 = self.raw_file.len();
        proof {
            assert(line_number < cap);
            assert(found < usize::MAX);
        }
        Self::get_error(found, line.as_str(), error)
    }
}

} // verus!
