//! Where the files of a package's skills go in a project: below the
//! directory where the project's agent tool looks for skills, in a
//! directory per skill, at the same place relative to the skill's
//! directory as in the package snapshot.

use vstd::prelude::*;
use crate::path::{
    components, join, join_spec, lemma_comps_le_total, path_le, path_le_exec, relative_to,
    strip_prefix, PathStyle,
};

verus! {

/// Where `relative`, a file of skill `skill_dir`, goes below the project's
/// skills directory `skills_root`.
pub open spec fn managed_target_spec(
    style: PathStyle,
    skills_root: Seq<char>,
    skill_dir: Seq<char>,
    relative: Seq<char>,
) -> Seq<char> {
    join_spec(style, join_spec(style, skills_root, skill_dir), relative)
}

/// The place in the project of `entry`, a file found below the skill's
/// directory `source_root` in the snapshot; nothing when `entry` does not lie
/// below `source_root`.
pub fn managed_file_target(
    style: PathStyle,
    skills_root: &str,
    skill_dir: &str,
    source_root: &str,
    entry: &str,
) -> (r: Option<String>)
    ensures
        match relative_to(style, entry@, source_root@) {
            Some(rel) => r matches Some(t) && t@ == managed_target_spec(
                style,
                skills_root@,
                skill_dir@,
                rel,
            ),
            None => r is None,
        },
{
    let relative = match strip_prefix(style, entry, source_root) {
        Some(rel) => rel,
        None => {
            return None;
        },
    };
    let skill = join(style, skills_root, skill_dir);
    Some(join(style, skill.as_str(), relative.as_str()))
}

/// A file that the project gets from a skill: where it goes in the project, and the
/// snapshot file that it is read from.
pub struct ManagedTarget {
    pub path: String,
    pub source: String,
}

/// The targets as pairs of texts: path, then source.
pub open spec fn target_pairs(v: Seq<ManagedTarget>) -> Seq<(Seq<char>, Seq<char>)> {
    v.map_values(|t: ManagedTarget| (t.path@, t.source@))
}

/// Each path is at most the next one, in the order of `Path`.
pub open spec fn sorted_by_path(style: PathStyle, v: Seq<ManagedTarget>) -> bool {
    forall|i: int| 0 <= i < v.len() - 1 ==> path_le(style, #[trigger] v[i].path@, v[i + 1].path@)
}

/// Paths that each come no later than the other: the same place in the
/// order.
pub open spec fn same_place(style: PathStyle, a: Seq<char>, b: Seq<char>) -> bool {
    path_le(style, a, b) && path_le(style, b, a)
}

/// `r` is `src` rearranged, item `i` of `r` being item `idx[i]` of `src`,
/// and items at the same place keep their order from `src`.
pub open spec fn stable_order(
    style: PathStyle,
    src: Seq<(Seq<char>, Seq<char>)>,
    r: Seq<(Seq<char>, Seq<char>)>,
    idx: Seq<int>,
) -> bool {
    &&& r.len() == src.len() && idx.len() == r.len()
    &&& forall|i: int| 0 <= i < r.len() ==> 0 <= #[trigger] idx[i] < src.len() && r[i] == src[idx[i]]
    &&& forall|i: int, j: int| 0 <= i < r.len() && 0 <= j < r.len() && i != j ==> #[trigger] idx[i]
        != #[trigger] idx[j]
    &&& forall|i: int, j: int|
        0 <= i < j < r.len() && same_place(style, #[trigger] r[i].0, #[trigger] r[j].0) ==> idx[i]
            < idx[j]
}

/// Putting a new last item of `src` at a place after every item that it
/// does not follow keeps the order stable.
proof fn lemma_insert_keeps_stable(
    style: PathStyle,
    src: Seq<(Seq<char>, Seq<char>)>,
    r: Seq<(Seq<char>, Seq<char>)>,
    idx: Seq<int>,
    j: int,
    pair: (Seq<char>, Seq<char>),
)
    requires
        stable_order(style, src, r, idx),
        0 <= j <= r.len(),
        forall|k: int| j <= k < r.len() ==> !path_le(style, #[trigger] r[k].0, pair.0),
    ensures
        stable_order(style, src.push(pair), r.insert(j, pair), idx.insert(j, src.len() as int)),
{
    let src1 = src.push(pair);
    let rp = r.insert(j, pair);
    let new_idx = idx.insert(j, src.len() as int);
    assert forall|a: int| 0 <= a < rp.len() implies 0 <= #[trigger] new_idx[a] < src1.len()
        && rp[a] == src1[new_idx[a]] by {
        if a < j {
            assert(new_idx[a] == idx[a] && rp[a] == r[a]);
        } else if a > j {
            assert(new_idx[a] == idx[a - 1] && rp[a] == r[a - 1]);
        }
    }
    assert forall|a: int, b: int|
        0 <= a < rp.len() && 0 <= b < rp.len() && a != b implies #[trigger] new_idx[a]
        != #[trigger] new_idx[b] by {
        let oa = if a < j { a } else { a - 1 };
        let ob = if b < j { b } else { b - 1 };
        if a != j && b != j {
            assert(new_idx[a] == idx[oa] && new_idx[b] == idx[ob]);
        } else if a == j {
            assert(new_idx[b] == idx[ob]);
        } else {
            assert(new_idx[a] == idx[oa]);
        }
    }
    assert forall|a: int, b: int|
        0 <= a < b < rp.len() && same_place(style, #[trigger] rp[a].0, #[trigger] rp[b].0) implies new_idx[a]
        < new_idx[b] by {
        let oa = if a < j { a } else { a - 1 };
        let ob = if b < j { b } else { b - 1 };
        if a == j {
            assert(rp[b] == r[ob]);
        } else if b == j {
            assert(new_idx[a] == idx[oa]);
        } else {
            assert(new_idx[a] == idx[oa] && new_idx[b] == idx[ob]);
            assert(rp[a] == r[oa] && rp[b] == r[ob]);
        }
    }
}

/// The targets ordered by path, as `Path`'s order has them, by a stable
/// sort: the same targets, each as often as before, and targets at the same
/// place in the order keep their order.
#[verifier::rlimit(90)]
pub fn sort_by_path(style: PathStyle, files: &Vec<ManagedTarget>) -> (r: Vec<ManagedTarget>)
    ensures
        target_pairs(r@).to_multiset() == target_pairs(files@).to_multiset(),
        sorted_by_path(style, r@),
        exists|idx: Seq<int>| stable_order(style, target_pairs(files@), target_pairs(r@), idx),
{
    broadcast use vstd::seq_lib::group_to_multiset_ensures;

    let mut out: Vec<ManagedTarget> = Vec::new();
    let mut i: usize = 0;
    let ghost mut idx: Seq<int> = Seq::empty();
    assert(target_pairs(files@.take(0)) =~= target_pairs(out@));
    while i < files.len()
        invariant
            i <= files.len(),
            target_pairs(out@).to_multiset() == target_pairs(files@.take(i as int)).to_multiset(),
            sorted_by_path(style, out@),
            stable_order(style, target_pairs(files@.take(i as int)), target_pairs(out@), idx),
        decreases files.len() - i,
    {
        let x = ManagedTarget { path: files[i].path.clone(), source: files[i].source.clone() };
        let mut j: usize = out.len();
        while j > 0 && !path_le_exec(style, out[j - 1].path.as_str(), x.path.as_str())
            invariant
                j <= out.len(),
                forall|k: int| j <= k < out.len() ==> !path_le(style, #[trigger] out@[k].path@, x.path@),
            decreases j,
        {
            j = j - 1;
        }
        let ghost before = out@;
        let ghost src0 = target_pairs(files@.take(i as int));
        let ghost src1 = target_pairs(files@.take(i + 1));
        proof {
            if j < out.len() {
                lemma_comps_le_total(components(style, x.path@), components(style, out@[j as int].path@));
            }
        }
        let ghost pair = (x.path@, x.source@);
        out.insert(j, x);
        proof {
            assert(out@ == before.insert(j as int, out@[j as int]));
            assert forall|k: int| 0 <= k < out@.len() - 1 implies path_le(
                style,
                #[trigger] out@[k].path@,
                out@[k + 1].path@,
            ) by {
                if k < j - 1 {
                    assert(out@[k] == before[k] && out@[k + 1] == before[k + 1]);
                } else if k == j - 1 {
                    assert(out@[k] == before[k]);
                } else if k == j {
                    assert(out@[k + 1] == before[k]);
                } else {
                    assert(out@[k] == before[k - 1] && out@[k + 1] == before[k]);
                }
            }
            assert(target_pairs(out@) =~= target_pairs(before).insert(j as int, pair));
            vstd::seq_lib::to_multiset_insert(target_pairs(before), j as int, pair);
            assert(src1 =~= src0.push(pair));
            vstd::seq_lib::to_multiset_build(src0, pair);
            assert(target_pairs(out@) =~= target_pairs(before).insert(j as int, pair));
            assert forall|k: int| j <= k < before.len() implies !path_le(
                style,
                #[trigger] target_pairs(before)[k].0,
                pair.0,
            ) by {
                assert(target_pairs(before)[k].0 == before[k].path@);
            }
            lemma_insert_keeps_stable(style, src0, target_pairs(before), idx, j as int, pair);
            let new_idx = idx.insert(j as int, i as int);
            idx = new_idx;
        }
        i = i + 1;
    }
    assert(files@.take(files.len() as int) =~= files@);
    out
}

/// The files of one skill in a package snapshot: the skill's directory
/// name in the project, its directory in the snapshot, and the files found
/// below that directory.
pub struct SkillFiles {
    pub skill_dir: String,
    pub source_root: String,
    pub entries: Vec<String>,
}

pub struct SkillFilesView {
    pub skill_dir: Seq<char>,
    pub source_root: Seq<char>,
    pub entries: Seq<Seq<char>>,
}

impl View for SkillFiles {
    type V = SkillFilesView;

    open spec fn view(&self) -> SkillFilesView {
        SkillFilesView {
            skill_dir: self.skill_dir@,
            source_root: self.source_root@,
            entries: self.entries@.map_values(|e: String| e@),
        }
    }
}

pub open spec fn skills_view(v: Seq<SkillFiles>) -> Seq<SkillFilesView> {
    v.map_values(|s: SkillFiles| s@)
}

/// Why the managed files could not be listed.
pub enum ManagedError {
    /// A file found for a skill does not lie below the skill's directory.
    NotRelative { file: String },
}

/// Whether every file of every skill lies below its skill's directory.
pub open spec fn all_relative(style: PathStyle, skills: Seq<SkillFilesView>) -> bool {
    forall|k: int, j: int|
        0 <= k < skills.len() && 0 <= j < skills[k].entries.len() ==> (relative_to(
            style,
            #[trigger] skills[k].entries[j],
            skills[k].source_root,
        ) is Some)
}

/// The target and the source of each file of a skill, in order.
pub open spec fn skill_pairs(style: PathStyle, skills_root: Seq<char>, s: SkillFilesView) -> Seq<
    (Seq<char>, Seq<char>),
> {
    s.entries.map_values(
        |e: Seq<char>|
            (
                managed_target_spec(
                    style,
                    skills_root,
                    s.skill_dir,
                    relative_to(style, e, s.source_root)->0,
                ),
                e,
            ),
    )
}

/// The targets and sources of the files of all skills, skill by skill.
pub open spec fn all_pairs(style: PathStyle, skills_root: Seq<char>, skills: Seq<SkillFilesView>) -> Seq<
    (Seq<char>, Seq<char>),
>
    decreases skills.len(),
{
    if skills.len() == 0 {
        Seq::empty()
    } else {
        all_pairs(style, skills_root, skills.drop_last()) + skill_pairs(
            style,
            skills_root,
            skills.last(),
        )
    }
}

/// The files that a package's skills put in a project: each file of
/// each skill, at its place below the project's skills directory, ordered
/// by path, files at the same place keeping the order of skills and of the
/// files found in each; an error names a file that does not lie below its skill's
/// directory.
pub fn managed_file_targets(style: PathStyle, skills_root: &str, skills: &Vec<SkillFiles>) -> (r:
    Result<Vec<ManagedTarget>, ManagedError>)
    ensures
        match r {
            Ok(v) => all_relative(style, skills_view(skills@)) && target_pairs(v@).to_multiset()
                == all_pairs(style, skills_root@, skills_view(skills@)).to_multiset()
                && sorted_by_path(style, v@) && exists|idx: Seq<int>|
                stable_order(style, all_pairs(style, skills_root@, skills_view(skills@)), target_pairs(v@), idx),
            Err(ManagedError::NotRelative { file }) => exists|k: int, j: int|
                0 <= k < skills.len() && 0 <= j < skills@[k]@.entries.len()
                    && skills@[k]@.entries[j] == file@ && relative_to(
                    style,
                    file@,
                    skills@[k]@.source_root,
                ) is None,
        },
{
    let ghost sv = skills_view(skills@);
    let mut out: Vec<ManagedTarget> = Vec::new();
    let mut k: usize = 0;
    assert(sv.take(0) =~= Seq::<SkillFilesView>::empty());
    assert(target_pairs(out@) =~= all_pairs(style, skills_root@, sv.take(0)));
    while k < skills.len()
        invariant
            k <= skills.len(),
            sv == skills_view(skills@),
            target_pairs(out@) == all_pairs(style, skills_root@, sv.take(k as int)),
            forall|a: int, b: int|
                0 <= a < k && 0 <= b < sv[a].entries.len() ==> (relative_to(
                    style,
                    #[trigger] sv[a].entries[b],
                    sv[a].source_root,
                ) is Some),
        decreases skills.len() - k,
    {
        let skill = &skills[k];
        let ghost sk = skill@;
        let ghost start = target_pairs(out@);
        assert(sv[k as int] == sk);
        let mut j: usize = 0;
        assert(target_pairs(out@) =~= start + skill_pairs(style, skills_root@, sk).take(0));
        while j < skill.entries.len()
            invariant
                k < skills.len(),
                sv == skills_view(skills@),
                sk == skill@,
                sk == sv[k as int],
                j <= skill.entries.len(),
                target_pairs(out@) == start + skill_pairs(style, skills_root@, sk).take(j as int),
                forall|b: int|
                    0 <= b < j ==> (relative_to(style, #[trigger] sk.entries[b], sk.source_root) is Some),
            decreases skill.entries.len() - j,
        {
            let entry = &skill.entries[j];
            assert(sk.entries[j as int] == entry@);
            match managed_file_target(
                style,
                skills_root,
                skill.skill_dir.as_str(),
                skill.source_root.as_str(),
                entry.as_str(),
            ) {
                Some(path) => {
                    let ghost before = target_pairs(out@);
                    out.push(ManagedTarget { path, source: entry.clone() });
                    assert(target_pairs(out@) =~= before.push(target_pairs(out@).last()));
                    assert(skill_pairs(style, skills_root@, sk).take(j + 1) =~= skill_pairs(
                        style,
                        skills_root@,
                        sk,
                    ).take(j as int).push(skill_pairs(style, skills_root@, sk)[j as int]));
                    assert(target_pairs(out@) =~= start + skill_pairs(style, skills_root@, sk).take(j + 1));
                },
                None => {
                    return Err(ManagedError::NotRelative { file: entry.clone() });
                },
            }
            j = j + 1;
        }
        assert(skill_pairs(style, skills_root@, sk).take(j as int) =~= skill_pairs(
            style,
            skills_root@,
            sk,
        ));
        assert(sv.take(k + 1).drop_last() =~= sv.take(k as int));
        assert(sv.take(k + 1).last() == sk);
        k = k + 1;
    }
    assert(sv.take(skills.len() as int) =~= sv);
    Ok(sort_by_path(style, &out))
}

} // verus!
