//! Planning the batch generation of a level's outputs from its input listing.
use vstd::prelude::*;
use crate::lines::string_of_chars;
use crate::paths::{
    build_path, decimal, expected_path_of, file_name_of, lemma_path_injective,
    level_dir_of, path_of, push_decimal, reveal_layout_literals,
};

verus! {

/// The start of every file name of a level: `level{L}_`.
pub open spec fn name_head(level: nat) -> Seq<char> {
    "level"@ + decimal(level) + "_"@
}

/// The sub-level that a file name of the input directory stands for, when it is
/// a generation target: a name `level{L}_{S}.in` with `S` other than `example`.
pub open spec fn target_of(level: nat, name: Seq<char>) -> Option<Seq<char>> {
    let head = name_head(level);
    if name.len() >= head.len() + 3 && name.take(head.len() as int) == head && name.skip(
        name.len() - 3,
    ) == ".in"@ {
        let sub_level = name.subrange(head.len() as int, name.len() - 3);
        if sub_level == "example"@ {
            None
        } else {
            Some(sub_level)
        }
    } else {
        None
    }
}

/// The generation targets among `names`, in the order of the listing.
pub open spec fn targets(level: nat, names: Seq<Seq<char>>) -> Seq<Seq<char>>
    decreases names.len(),
{
    if names.len() == 0 {
        Seq::empty()
    } else {
        let rest = targets(level, names.drop_last());
        match target_of(level, names.last()) {
            Some(sub_level) => rest.push(sub_level),
            None => rest,
        }
    }
}

/// One sub-level to generate: where its input is read and its output written.
pub struct GenerationJob {
    pub sub_level: String,
    pub input_path: String,
    pub output_path: String,
}

impl GenerationJob {
    /// The job of sub-level `sub_level` of `level`.
    pub open spec fn is_job_of(&self, level: nat, sub_level: Seq<char>) -> bool {
        &&& self.sub_level@ == sub_level
        &&& self.input_path@ == path_of(level, sub_level, false)
        &&& self.output_path@ == path_of(level, sub_level, true)
    }
}

fn chars_of(s: &str) -> (r: Vec<char>)
    ensures
        r@ == s@,
{
    let mut r: Vec<char> = Vec::new();
    for c in iter: s.chars()
        invariant
            iter.seq() == s@,
            r@ == s@.take(iter.index()),
    {
        r.push(c);
        assert(r@ =~= s@.take(iter.index() + 1));
    }
    assert(s@.take(s@.len() as int) =~= s@);
    r
}

/// Whether `name` holds `part` at position `at`.
fn holds_at(name: &Vec<char>, part: &Vec<char>, at: usize) -> (r: bool)
    requires
        at + part.len() <= name.len(),
    ensures
        r == (name@.subrange(at as int, at + part.len()) == part@),
{
    let mut i: usize = 0;
    while i < part.len()
        invariant
            i <= part.len(),
            at + part.len() <= name.len(),
            forall|j: int| 0 <= j < i ==> name@[at + j] == part@[j],
        decreases part.len() - i,
    {
        if name[at + i] != part[i] {
            assert(name@.subrange(at as int, at + part.len())[i as int] != part@[i as int]);
            return false;
        }
        i += 1;
    }
    assert(name@.subrange(at as int, at + part.len()) =~= part@);
    true
}

/// The sub-level that `file_name` stands for, when it is a generation target of
/// `level`: a name `level{L}_{S}.in` with `S` other than `example`.
pub fn target_sub_level(level: usize, file_name: &str) -> (r: Option<String>)
    ensures
        r.deep_view() == target_of(level as nat, file_name@),
{
    let name = chars_of(file_name);
    let mut head_text = String::from_str("level");
    push_decimal(&mut head_text, level);
    head_text.append("_");
    let head = chars_of(head_text.as_str());
    let tail = chars_of(".in");
    proof {
        reveal_strlit("level");
        reveal_strlit("_");
        reveal_strlit(".in");
        assert(head@ =~= name_head(level as nat));
    }
    if name.len() < head.len() || name.len() - head.len() < 3 {
        return None;
    }
    let end: usize = name.len() - 3;
    if !holds_at(&name, &head, 0) || !holds_at(&name, &tail, end) {
        return None;
    }
    let mut middle: Vec<char> = Vec::new();
    let mut i: usize = head.len();
    while i < end
        invariant
            head.len() <= i <= end,
            end <= name.len(),
            middle@ == name@.subrange(head.len() as int, i as int),
        decreases end - i,
    {
        middle.push(name[i]);
        assert(middle@ =~= name@.subrange(head.len() as int, i + 1));
        i += 1;
    }
    let sub_level = string_of_chars(&middle);
    let example = String::from_str("example");
    assert(name@.take(head.len() as int) =~= name@.subrange(0, head.len() as int));
    assert(name@.skip(end as int) =~= name@.subrange(end as int, end + 3));
    if sub_level == example {
        None
    } else {
        Some(sub_level)
    }
}

/// Plans the batch generation of `level` from the file names of its input
/// directory: one job per generation target, in the order of the listing.
pub fn generation_jobs(level: usize, file_names: &Vec<String>) -> (r: Vec<GenerationJob>)
    ensures
        r.len() == targets(level as nat, file_names.deep_view()).len(),
        forall|i: int|
            0 <= i < r.len() ==> (#[trigger] r[i]).is_job_of(
                level as nat,
                targets(level as nat, file_names.deep_view())[i],
            ),
{
    let ghost names = file_names.deep_view();
    let mut jobs: Vec<GenerationJob> = Vec::new();
    let mut i: usize = 0;
    while i < file_names.len()
        invariant
            i <= file_names.len(),
            names == file_names.deep_view(),
            jobs.len() == targets(level as nat, names.take(i as int)).len(),
            forall|j: int|
                0 <= j < jobs.len() ==> (#[trigger] jobs[j]).is_job_of(
                    level as nat,
                    targets(level as nat, names.take(i as int))[j],
                ),
        decreases file_names.len() - i,
    {
        assert(names.take(i + 1).drop_last() =~= names.take(i as int));
        assert(names.take(i + 1).last() == file_names[i as int]@);
        match target_sub_level(level, file_names[i].as_str()) {
            Some(sub_level) => {
                let input_path = build_path(level, sub_level.as_str(), false);
                let output_path = build_path(level, sub_level.as_str(), true);
                jobs.push(GenerationJob { sub_level, input_path, output_path });
            },
            None => {},
        }
        i += 1;
    }
    assert(names.take(i as int) =~= names);
    jobs
}


proof fn lemma_target_name(level: nat, name: Seq<char>)
    requires
        target_of(level, name) is Some,
    ensures
        name == file_name_of(level, target_of(level, name)->0, "in"@),
        target_of(level, name)->0 != "example"@,
{
    reveal_layout_literals();
    reveal_strlit(".in");
    let head = name_head(level);
    let sub_level = target_of(level, name)->0;
    assert(name =~= name.take(head.len() as int) + sub_level + name.skip(name.len() - 3));
    assert(".in"@ =~= "."@ + "in"@);
    assert(name =~= file_name_of(level, sub_level, "in"@));
}

/// Batch generation only targets input files named `level{L}_{S}.in` for the
/// requested level, never the `example` sub-level, and each target is read from
/// the listed file itself.
pub proof fn lemma_targets_filtered(level: nat, names: Seq<Seq<char>>)
    ensures
        forall|k: int|
            0 <= k < targets(level, names).len() ==> {
                let sub_level = #[trigger] targets(level, names)[k];
                &&& sub_level != "example"@
                &&& exists|i: int|
                    0 <= i < names.len() && names[i] == file_name_of(level, sub_level, "in"@)
                        && target_of(level, names[i]) == Some(sub_level)
                &&& path_of(level, sub_level, false) == level_dir_of(level, false) + "/"@
                    + file_name_of(level, sub_level, "in"@)
            },
    decreases names.len(),
{
    reveal_layout_literals();
    if names.len() > 0 {
        let init = names.drop_last();
        lemma_targets_filtered(level, init);
        let ts = targets(level, names);
        assert forall|k: int| 0 <= k < ts.len() implies {
            let sub_level = #[trigger] ts[k];
            &&& sub_level != "example"@
            &&& exists|i: int|
                0 <= i < names.len() && names[i] == file_name_of(level, sub_level, "in"@)
                    && target_of(level, names[i]) == Some(sub_level)
            &&& path_of(level, sub_level, false) == level_dir_of(level, false) + "/"@
                + file_name_of(level, sub_level, "in"@)
        } by {
            let sub_level = ts[k];
            if k < targets(level, init).len() {
                assert(sub_level == targets(level, init)[k]);
                let i = choose|i: int|
                    0 <= i < init.len() && init[i] == file_name_of(level, sub_level, "in"@)
                        && target_of(level, init[i]) == Some(sub_level);
                assert(names[i] == init[i]);
            } else {
                let last = names.last();
                lemma_target_name(level, last);
                assert(names[names.len() - 1] == last);
            }
        }
    }
}

/// An output path of batch generation is never an input path nor a reference
/// output path, of any level and sub-level.
pub proof fn lemma_outputs_apart_from_inputs(
    level: nat,
    sub_level: Seq<char>,
    other_level: nat,
    other_sub_level: Seq<char>,
)
    ensures
        path_of(level, sub_level, true) != path_of(other_level, other_sub_level, false),
        path_of(level, sub_level, true) != expected_path_of(other_level),
{
    reveal_layout_literals();
    if path_of(level, sub_level, true) == path_of(other_level, other_sub_level, false) {
        lemma_path_injective(level, sub_level, true, other_level, other_sub_level, false);
    }
    assert(path_of(level, sub_level, true)[4] == 'o');
    assert(expected_path_of(other_level)[4] == 'i');
}

} // verus!
