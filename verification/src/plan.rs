use vstd::prelude::*;
use crate::error::{Error, ErrorExt};
use crate::ignore::{
    is_ignored, override_for, spec_check_excludes, spec_entry_ignored, spec_override_for,
    check_excludes, ResolvedOverride,
};
use crate::pathutil::{join_rel, spec_extension_of, spec_join_rel};
use crate::strutil::{lemma_last_idx_of, spec_last_idx_of};
use crate::template_engine::TemplateEngine;
use crate::tree::{entry_name, spec_entry_name, DirNode, Entry};
use crate::types::{CondFileMap, TemplateConfig};
use crate::var_subs::{substitute_variable_in_text, CollectedData, TextMap};

verus! {

broadcast use vstd::string::group_string_axioms, vstd::std_specs::vec::group_vec_axioms;

/// What one output file holds: bytes copied verbatim from the source file,
/// or text rendered for it.
#[derive(Debug)]
pub enum OutContent {
    Bytes(Vec<u8>),
    Text(String),
}

/// One file the disbursement will write: where under the target directory,
/// and with what content.
#[derive(Debug)]
pub struct OutFile {
    pub rel_path: String,
    pub content: OutContent,
}

/// Whether a file name carries the template extension: its extension equals
/// the extension with the leading dot stripped. The rename transform and the
/// render-or-copy decision both go through this one test, so the two agree
/// by construction.
pub open spec fn spec_is_templated(name: Seq<char>, ext: Seq<char>) -> bool {
    spec_extension_of(name) == Some(ext.skip(1))
}

/// A templated name is longer than the extension it carries.
pub proof fn lemma_templated_len(name: Seq<char>, ext: Seq<char>)
    requires
        ext.len() >= 1,
        spec_is_templated(name, ext),
    ensures
        name.len() > ext.len(),
        spec_last_idx_of(name, '.') == name.len() - ext.len(),
{
    lemma_last_idx_of(name, '.');
    let d = spec_last_idx_of(name, '.');
    assert(name.skip(d + 1) == ext.skip(1));
    assert(name.skip(d + 1).len() == name.len() - d - 1);
    assert(ext.skip(1).len() == ext.len() - 1);
}

/// Whether a file name carries the template extension.
pub fn is_templated(name: &str, ext: &str) -> (r: bool)
    requires
        ext@.len() >= 1,
    ensures
        r == spec_is_templated(name@, ext@),
{
    let bare = ext.substring_char(1, ext.unicode_len());
    match crate::pathutil::extension_of(name) {
        Some(e) => crate::strutil::str_eq(e.as_str(), bare),
        None => false,
    }
}

/// The name an entry gets in the target tree: a rendered override name when
/// one is declared for its source-relative path; otherwise a file's name
/// with the template extension stripped when it carries it; otherwise the
/// entry's own name.
pub open spec fn spec_dest_name(
    e: Entry,
    rel: Seq<char>,
    ov: Seq<ResolvedOverride>,
    ext: Seq<char>,
) -> Seq<char> {
    let od = spec_override_for(ov, rel);
    if od matches Some(o) && o.new_name is Some {
        od.unwrap().new_name.unwrap()@
    } else {
        match e {
            Entry::Dir(d) => d.name@,
            Entry::File(f) => if spec_is_templated(f.name@, ext) {
                f.name@.take(f.name@.len() - ext.len())
            } else {
                f.name@
            },
        }
    }
}

/// The name an entry gets in the target tree.
pub fn dest_name(e: &Entry, rel: &str, ov: &Vec<ResolvedOverride>, ext: &str) -> (r: String)
    requires
        ext@.len() >= 1,
    ensures
        r@ == spec_dest_name(*e, rel@, ov@, ext@),
{
    match override_for(ov, rel) {
        Some(o) => {
            match &o.new_name {
                Some(n) => {
                    return n.clone();
                },
                None => (),
            }
        },
        None => (),
    }
    match e {
        Entry::Dir(d) => d.name.clone(),
        Entry::File(f) => {
            if is_templated(f.name.as_str(), ext) {
                proof {
                    lemma_templated_len(f.name@, ext@);
                }
                let n = f.name.unicode_len();
                let stripped = f.name.as_str().substring_char(0, n - ext.unicode_len());
                String::from_str(stripped)
            } else {
                f.name.clone()
            }
        },
    }
}

/// The plan one tree entry contributes, given the walk's accumulated
/// source-relative and target-relative paths: nothing when the entry is
/// ignored; one output per surviving file, byte-for-byte for a plain file
/// (`Some` bytes) and engine-rendered for a templated one (`None`); and a
/// surviving directory's entries in order, under its renamed path.
pub open spec fn spec_entry_plan(
    e: Entry,
    src_rel: Seq<char>,
    dst_rel: Seq<char>,
    is_local: bool,
    ov: Seq<ResolvedOverride>,
    siblings: Seq<Entry>,
    ext: Seq<char>,
) -> Seq<(Seq<char>, Option<Seq<u8>>)>
    decreases e, 0nat,
{
    let rel = spec_join_rel(src_rel, spec_entry_name(e));
    if spec_entry_ignored(e, rel, is_local, ov, siblings, ext) {
        Seq::empty()
    } else {
        let dst = spec_join_rel(dst_rel, spec_dest_name(e, rel, ov, ext));
        match e {
            Entry::File(f) => if spec_is_templated(f.name@, ext) {
                seq![(dst, None)]
            } else {
                seq![(dst, Some(f.content@))]
            },
            Entry::Dir(d) => {
                proof {
                    assert(decreases_to!(e => d));
                    assert(decreases_to!(d => d.entries));
                    assert(decreases_to!(d.entries => d.entries@));
                }
                spec_entries_plan(d.entries@, 0, rel, dst, is_local, ov, ext)
            },
        }
    }
}

/// The plan the entries of one directory contribute, from index `i` on.
pub open spec fn spec_entries_plan(
    entries: Seq<Entry>,
    i: int,
    src_rel: Seq<char>,
    dst_rel: Seq<char>,
    is_local: bool,
    ov: Seq<ResolvedOverride>,
    ext: Seq<char>,
) -> Seq<(Seq<char>, Option<Seq<u8>>)>
    decreases entries, entries.len() - i + 1nat,
{
    if i < 0 || i >= entries.len() {
        Seq::empty()
    } else {
        proof {
            assert(decreases_to!(entries => entries[i]));
        }
        spec_entry_plan(entries[i], src_rel, dst_rel, is_local, ov, entries, ext)
            + spec_entries_plan(entries, i + 1, src_rel, dst_rel, is_local, ov, ext)
    }
}

/// An ignored entry contributes nothing to the plan: it is never visited,
/// never renamed and never materialized, whatever its content.
pub proof fn lemma_ignored_entry_plans_nothing(
    e: Entry,
    src_rel: Seq<char>,
    dst_rel: Seq<char>,
    is_local: bool,
    ov: Seq<ResolvedOverride>,
    siblings: Seq<Entry>,
    ext: Seq<char>,
)
    requires
        spec_entry_ignored(
            e,
            spec_join_rel(src_rel, spec_entry_name(e)),
            is_local,
            ov,
            siblings,
            ext,
        ),
    ensures
        spec_entry_plan(e, src_rel, dst_rel, is_local, ov, siblings, ext) == Seq::<
            (Seq<char>, Option<Seq<u8>>),
        >::empty(),
{
}

/// Whether the written outputs realize a plan: same paths in the same
/// order, planned bytes copied exactly, and planned renders as text.
pub open spec fn spec_out_matches(
    outs: Seq<OutFile>,
    plan: Seq<(Seq<char>, Option<Seq<u8>>)>,
) -> bool {
    outs.len() == plan.len() && forall|i: int|
        0 <= i < plan.len() ==> {
            &&& (#[trigger] outs[i]).rel_path@ == plan[i].0
            &&& match plan[i].1 {
                Some(b) => outs[i].content matches OutContent::Bytes(c) && c@ == b,
                None => outs[i].content is Text,
            }
        }
}

proof fn lemma_out_matches_concat(
    a: Seq<OutFile>,
    b: Seq<OutFile>,
    p: Seq<(Seq<char>, Option<Seq<u8>>)>,
    q: Seq<(Seq<char>, Option<Seq<u8>>)>,
)
    requires
        spec_out_matches(a, p),
        spec_out_matches(b, q),
    ensures
        spec_out_matches(a + b, p + q),
{
    assert forall|i: int| 0 <= i < (p + q).len() implies {
        &&& (#[trigger] (a + b)[i]).rel_path@ == (p + q)[i].0
        &&& match (p + q)[i].1 {
            Some(bb) => (a + b)[i].content matches OutContent::Bytes(c) && c@ == bb,
            None => (a + b)[i].content is Text,
        }
    } by {
        if i < p.len() {
            assert((a + b)[i] == a[i]);
            assert((p + q)[i] == p[i]);
        } else {
            assert((a + b)[i] == b[i - p.len()]);
            assert((p + q)[i] == q[i - p.len()]);
        }
    }
}

/// Walks one directory's entries, appending every output file the plan asks
/// for. Rendered contents come from the engine, so success is promised only
/// where the plan needs no render.
#[verifier::loop_isolation(false)]
#[verifier::rlimit(100)]
fn plan_entries(
    entries: &Vec<Entry>,
    src_rel: &str,
    dst_rel: &str,
    is_local: bool,
    ov: &Vec<ResolvedOverride>,
    ext: &str,
    engine: &TemplateEngine,
    data: &CollectedData,
    extras: &TextMap,
    env: &TextMap,
    out: &mut Vec<OutFile>,
) -> (r: Result<(), Error>)
    requires
        ext@.len() >= 1,
    ensures
        ({
            let plan = spec_entries_plan(
                entries@,
                0,
                src_rel@,
                dst_rel@,
                is_local,
                ov@,
                ext@,
            );
            &&& r is Ok ==> final(out)@.len() == old(out)@.len() + plan.len()
                && final(out)@.subrange(0, old(out)@.len() as int) == old(out)@
                && spec_out_matches(
                final(out)@.skip(old(out)@.len() as int),
                plan,
            )
            &&& (forall|j: int| 0 <= j < plan.len() ==> (#[trigger] plan[j]).1 is Some) ==> r is Ok
            &&& r matches Err(e) ==> (crate::strutil::spec_starts_with(
                e@,
                "Couldn't read the template file: "@,
            ) || crate::strutil::spec_starts_with(
                e@,
                "Failed to generate actual code from template file: "@,
            ))
        }),
    decreases entries@,
{
    let ghost plan0 = spec_entries_plan(entries@, 0, src_rel@, dst_rel@, is_local, ov@, ext@);
    let ghost base = out@;
    let ghost mut planned: Seq<(Seq<char>, Option<Seq<u8>>)> = Seq::empty();
    let mut i: usize = 0;
    proof {
        assert(out@.skip(base.len() as int) =~= Seq::<OutFile>::empty());
        assert(planned + spec_entries_plan(entries@, 0, src_rel@, dst_rel@, is_local, ov@, ext@)
            =~= plan0);
        assert(out@.subrange(0, base.len() as int) =~= base);
    }
    while i < entries.len()
        invariant
            0 <= i <= entries@.len(),
            out@.len() == base.len() + planned.len(),
            out@.subrange(0, base.len() as int) == base,
            spec_out_matches(out@.skip(base.len() as int), planned),
            planned + spec_entries_plan(
                entries@,
                i as int,
                src_rel@,
                dst_rel@,
                is_local,
                ov@,
                ext@,
            ) =~= plan0,
        decreases entries@.len() - i,
    {
        let e = &entries[i];
        let ghost eplan = spec_entry_plan(
            entries@[i as int],
            src_rel@,
            dst_rel@,
            is_local,
            ov@,
            entries@,
            ext@,
        );
        let name = entry_name(e);
        let rel = join_rel(src_rel, name.as_str());
        if !is_ignored(e, rel.as_str(), is_local, ov, entries, ext) {
            let dname = dest_name(e, rel.as_str(), ov, ext);
            let dst = join_rel(dst_rel, dname.as_str());
            match e {
                Entry::File(f) => {
                    if is_templated(f.name.as_str(), ext) {
                        proof {
                            assert(eplan =~= seq![(dst@, None::<Seq<u8>>)]);
                            assert(spec_entries_plan(
                                entries@,
                                i as int,
                                src_rel@,
                                dst_rel@,
                                is_local,
                                ov@,
                                ext@,
                            ) =~= eplan + spec_entries_plan(
                                entries@,
                                i as int + 1,
                                src_rel@,
                                dst_rel@,
                                is_local,
                                ov@,
                                ext@,
                            ));
                            assert(plan0[planned.len() as int] == eplan[0]);
                        }
                        let text = match &f.text {
                            Some(t) => t,
                            None => {
                                let mut msg = String::from_str(
                                    "Couldn't read the template file: ",
                                );
                                msg.append(rel.as_str());
                                proof {
                                    crate::strutil::lemma_concat_starts_with(
                                        "Couldn't read the template file: "@,
                                        rel@,
                                    );
                                }
                                return Err(Error::new(msg));
                            },
                        };
                        let substituted = substitute_variable_in_text(
                            text.as_str(),
                            data,
                            extras,
                            env,
                        );
                        let rendered = match engine.render_template(substituted.as_str(), data) {
                            Ok(s) => s,
                            Err(err) => {
                                let mut ctx = String::from_str(
                                    "Failed to generate actual code from template file: ",
                                );
                                ctx.append(rel.as_str());
                                let wrapped = ErrorExt::context(
                                    err.message().clone(),
                                    ctx.as_str(),
                                );
                                proof {
                                    crate::strutil::lemma_concat_starts_with(
                                        "Failed to generate actual code from template file: "@
                                            + rel@ + ": "@,
                                        err@,
                                    );
                                    crate::strutil::lemma_starts_with_prefix(
                                        wrapped@,
                                        "Failed to generate actual code from template file: "@
                                            + rel@,
                                        ": "@,
                                    );
                                    crate::strutil::lemma_starts_with_prefix(
                                        wrapped@,
                                        "Failed to generate actual code from template file: "@,
                                        rel@,
                                    );
                                }
                                return Err(wrapped);
                            },
                        };
                        let ghost pre_out = out@;
                        out.push(OutFile { rel_path: dst, content: OutContent::Text(rendered) });
                        proof {
                            planned = planned + eplan;
                            assert(out@.skip(base.len() as int) =~= pre_out.skip(
                                base.len() as int,
                            ).push(out@[out@.len() - 1]));
                            assert(spec_out_matches(out@.skip(base.len() as int), planned));
                            assert(out@.subrange(0, base.len() as int) =~= base);
                        }
                    } else {
                        proof {
                            assert(eplan =~= seq![(dst@, Some(f.content@))]);
                        }
                        let ghost pre_out = out@;
                        out.push(
                            OutFile { rel_path: dst, content: OutContent::Bytes(f.content.clone()) },
                        );
                        proof {
                            planned = planned + eplan;
                            assert(out@[out@.len() - 1].content matches OutContent::Bytes(c)
                                && c@ =~= f.content@);
                            assert(out@.skip(base.len() as int) =~= pre_out.skip(
                                base.len() as int,
                            ).push(out@[out@.len() - 1]));
                            assert(spec_out_matches(out@.skip(base.len() as int), planned));
                            assert(out@.subrange(0, base.len() as int) =~= base);
                        }
                    }
                },
                Entry::Dir(d) => {
                    proof {
                        assert(decreases_to!(entries@ => entries@[i as int]));
                        assert(decreases_to!(entries@[i as int] => d));
                        assert(decreases_to!(*d => d.entries));
                        assert(decreases_to!(d.entries => d.entries@));
                    }
                    let ghost pre_out = out@;
                    let ghost sub_plan = spec_entries_plan(
                        d.entries@,
                        0,
                        rel@,
                        dst@,
                        is_local,
                        ov@,
                        ext@,
                    );
                    proof {
                        assert(eplan =~= sub_plan);
                    }
                    match plan_entries(
                        &d.entries,
                        rel.as_str(),
                        dst.as_str(),
                        is_local,
                        ov,
                        ext,
                        engine,
                        data,
                        extras,
                        env,
                        out,
                    ) {
                        Ok(()) => {
                            proof {
                                let pre_planned = planned;
                                planned = pre_planned + eplan;
                                lemma_out_matches_concat(
                                    pre_out.skip(base.len() as int),
                                    out@.skip(pre_out.len() as int),
                                    pre_planned,
                                    eplan,
                                );
                                assert(pre_out.skip(base.len() as int) + out@.skip(
                                    pre_out.len() as int,
                                ) =~= out@.skip(base.len() as int));
                                assert(out@.subrange(0, base.len() as int) =~= base);
                            }
                        },
                        Err(err) => {
                            proof {
                                assert(spec_entries_plan(
                                    entries@,
                                    i as int,
                                    src_rel@,
                                    dst_rel@,
                                    is_local,
                                    ov@,
                                    ext@,
                                ) =~= eplan + spec_entries_plan(
                                    entries@,
                                    i as int + 1,
                                    src_rel@,
                                    dst_rel@,
                                    is_local,
                                    ov@,
                                    ext@,
                                ));
                                if exists|j0: int|
                                    0 <= j0 < sub_plan.len() && (#[trigger] sub_plan[j0]).1
                                        is None {
                                    let j0 = choose|j0: int|
                                        0 <= j0 < sub_plan.len() && (#[trigger] sub_plan[j0]).1
                                            is None;
                                    assert(plan0[planned.len() + j0] == sub_plan[j0]);
                                } else {
                                    assert(forall|j0: int|
                                        0 <= j0 < sub_plan.len() ==> (#[trigger] sub_plan[j0]).1
                                            is Some);
                                    assert(false);
                                }
                            }
                            return Err(err);
                        },
                    }
                },
            }
        } else {
            proof {
                assert(eplan =~= Seq::<(Seq<char>, Option<Seq<u8>>)>::empty());
                assert(planned + eplan =~= planned);
            }
        }
        proof {
            assert(spec_entries_plan(
                entries@,
                i as int,
                src_rel@,
                dst_rel@,
                is_local,
                ov@,
                ext@,
            ) =~= eplan + spec_entries_plan(
                entries@,
                i as int + 1,
                src_rel@,
                dst_rel@,
                is_local,
                ov@,
                ext@,
            ));
            assert(planned + spec_entries_plan(
                entries@,
                i as int + 1,
                src_rel@,
                dst_rel@,
                is_local,
                ov@,
                ext@,
            ) =~= plan0);
        }
        i = i + 1;
    }
    proof {
        assert(spec_entries_plan(
            entries@,
            entries@.len() as int,
            src_rel@,
            dst_rel@,
            is_local,
            ov@,
            ext@,
        ).len() == 0);
        assert(planned =~= plan0);
    }
    Ok(())
}

/// How resolved overrides relate to the declared file overrides: same keys
/// in order, the exclusion decided exactly by the rendered check, and a
/// resolved new name exactly where one was declared.
pub open spec fn spec_overrides_resolved(
    fm: Option<Vec<(String, CondFileMap)>>,
    ov: Seq<ResolvedOverride>,
) -> bool {
    match fm {
        None => ov.len() == 0,
        Some(list) => ov.len() == list@.len() && forall|i: int|
            0 <= i < list@.len() ==> {
                &&& (#[trigger] ov[i]).rel_path == list@[i].0
                &&& ov[i].excluded == spec_check_excludes(ov[i].check_rendered@)
                &&& (ov[i].new_name is Some <==> list@[i].1.new_name is Some)
            },
    }
}

/// Renders every declared override's check and new name once against the
/// collected data, before the walk begins — also for keys whose entries the
/// earlier ignore rules will exclude, so a check that fails to render aborts
/// the run even when its entry would never have been consulted. The engine
/// decides each render, so success is promised only where nothing is
/// declared.
#[verifier::loop_isolation(false)]
pub fn resolve_overrides(
    files_map: &Option<Vec<(String, CondFileMap)>>,
    engine: &TemplateEngine,
    data: &CollectedData,
) -> (r: Result<Vec<ResolvedOverride>, Error>)
    ensures
        r matches Ok(ov) ==> spec_overrides_resolved(*files_map, ov@),
        files_map is None ==> r is Ok,
        r matches Err(e) ==> (files_map matches Some(list) && exists|i: int|
            0 <= i < list@.len() && (crate::strutil::spec_starts_with(
                e@,
                "Couldn't generate check condition for key in 'files' attribute: "@ + (
                #[trigger] list@[i]).0@ + ": "@,
            ) || crate::strutil::spec_starts_with(
                e@,
                "Couldn't generate new name for key in 'files' attribute: "@ + list@[i].0@
                    + ": "@,
            ))),
{
    let list = match files_map {
        Some(list) => list,
        None => {
            return Ok(Vec::new());
        },
    };
    let mut out: Vec<ResolvedOverride> = Vec::new();
    let mut i: usize = 0;
    while i < list.len()
        invariant
            0 <= i <= list@.len(),
            out@.len() == i,
            forall|k: int|
                0 <= k < i ==> {
                    &&& (#[trigger] out@[k]).rel_path == list@[k].0
                    &&& out@[k].excluded == spec_check_excludes(out@[k].check_rendered@)
                    &&& (out@[k].new_name is Some <==> list@[k].1.new_name is Some)
                },
        decreases list@.len() - i,
    {
        let key = list[i].0.clone();
        let check_rendered = match engine.render_template(list[i].1.check.as_str(), data) {
            Ok(s) => s,
            Err(err) => {
                let mut ctx = String::from_str(
                    "Couldn't generate check condition for key in 'files' attribute: ",
                );
                ctx.append(key.as_str());
                let wrapped = ErrorExt::context(err.message().clone(), ctx.as_str());
                proof {
                    crate::strutil::lemma_concat_starts_with(
                        "Couldn't generate check condition for key in 'files' attribute: "@
                            + list@[i as int].0@ + ": "@,
                        err@,
                    );
                    assert(crate::strutil::spec_starts_with(
                        wrapped@,
                        "Couldn't generate check condition for key in 'files' attribute: "@ + (
                        list@[i as int]).0@ + ": "@,
                    ));
                }
                return Err(wrapped);
            },
        };
        let excluded = check_excludes(check_rendered.as_str());
        let new_name = match &list[i].1.new_name {
            Some(tpl) => {
                match engine.render_template(tpl.as_str(), data) {
                    Ok(s) => Some(s),
                    Err(err) => {
                        let mut ctx = String::from_str(
                            "Couldn't generate new name for key in 'files' attribute: ",
                        );
                        ctx.append(key.as_str());
                        let wrapped = ErrorExt::context(err.message().clone(), ctx.as_str());
                        proof {
                            crate::strutil::lemma_concat_starts_with(
                                "Couldn't generate new name for key in 'files' attribute: "@
                                    + list@[i as int].0@ + ": "@,
                                err@,
                            );
                            assert(crate::strutil::spec_starts_with(
                                wrapped@,
                                "Couldn't generate new name for key in 'files' attribute: "@ + (
                                list@[i as int]).0@ + ": "@,
                            ));
                        }
                        return Err(wrapped);
                    },
                }
            },
            None => None,
        };
        out.push(ResolvedOverride { rel_path: key, check_rendered, excluded, new_name });
        i = i + 1;
    }
    Ok(out)
}

/// The error texts a walk can fail with: an unreadable templated file, a
/// failed content render, or a failed override check or new-name render.
pub open spec fn spec_walk_err_text(e: Seq<char>) -> bool {
    ||| crate::strutil::spec_starts_with(e, "Couldn't read the template file: "@)
    ||| crate::strutil::spec_starts_with(e, "Failed to generate actual code from template file: "@)
    ||| crate::strutil::spec_starts_with(
        e,
        "Couldn't generate check condition for key in 'files' attribute: "@,
    )
    ||| crate::strutil::spec_starts_with(
        e,
        "Couldn't generate new name for key in 'files' attribute: "@,
    )
}

/// Whether walking `entries` with no overrides declared would plan no
/// render: every planned output copies bytes, so the engine is never
/// consulted for content.
pub open spec fn spec_plan_needs_no_render(
    entries: Seq<Entry>,
    is_local: bool,
    ext: Seq<char>,
) -> bool {
    let plan = spec_entries_plan(
        entries,
        0,
        Seq::<char>::empty(),
        Seq::<char>::empty(),
        is_local,
        Seq::<ResolvedOverride>::empty(),
        ext,
    );
    forall|j: int| 0 <= j < plan.len() ==> (#[trigger] plan[j]).1 is Some
}

/// Walks the resolved template source and produces the whole disbursement
/// plan: overrides are rendered once, then every surviving entry contributes
/// its output, plain files byte-for-byte and templated files through the
/// engine, under the renamed relative paths. With no overrides declared and
/// no templated file surviving, the engine is never consulted and success is
/// owed.
pub fn walk_template_dir(
    source: &DirNode,
    template: &crate::project_template::ProjectTemplate,
    config: &TemplateConfig,
    engine: &TemplateEngine,
    data: &CollectedData,
    extras: &TextMap,
    env: &TextMap,
) -> (r: Result<Vec<OutFile>, Error>)
    requires
        config.template.extension@.len() >= 1,
    ensures
        r matches Ok(out) ==> exists|ov: Seq<ResolvedOverride>|
            {
                &&& #[trigger] spec_overrides_resolved(config.files_map, ov)
                &&& spec_out_matches(
                    out@,
                    spec_entries_plan(
                        source.entries@,
                        0,
                        Seq::<char>::empty(),
                        Seq::<char>::empty(),
                        template is Local,
                        ov,
                        config.template.extension@,
                    ),
                )
            },
        config.files_map is None && spec_plan_needs_no_render(
            source.entries@,
            template is Local,
            config.template.extension@,
        ) ==> r is Ok,
        r matches Err(e) ==> spec_walk_err_text(e@),
{
    let ov = match resolve_overrides(&config.files_map, engine, data) {
        Ok(ov) => ov,
        Err(e) => {
            proof {
                let list = config.files_map->Some_0;
                let i = choose|i: int|
                    0 <= i < list@.len() && (crate::strutil::spec_starts_with(
                        e@,
                        "Couldn't generate check condition for key in 'files' attribute: "@ + (
                        #[trigger] list@[i]).0@ + ": "@,
                    ) || crate::strutil::spec_starts_with(
                        e@,
                        "Couldn't generate new name for key in 'files' attribute: "@ + list@[i].0@
                            + ": "@,
                    ));
                if crate::strutil::spec_starts_with(
                    e@,
                    "Couldn't generate check condition for key in 'files' attribute: "@
                        + list@[i].0@ + ": "@,
                ) {
                    crate::strutil::lemma_starts_with_prefix(
                        e@,
                        "Couldn't generate check condition for key in 'files' attribute: "@
                            + list@[i].0@,
                        ": "@,
                    );
                    crate::strutil::lemma_starts_with_prefix(
                        e@,
                        "Couldn't generate check condition for key in 'files' attribute: "@,
                        list@[i].0@,
                    );
                } else {
                    crate::strutil::lemma_starts_with_prefix(
                        e@,
                        "Couldn't generate new name for key in 'files' attribute: "@
                            + list@[i].0@,
                        ": "@,
                    );
                    crate::strutil::lemma_starts_with_prefix(
                        e@,
                        "Couldn't generate new name for key in 'files' attribute: "@,
                        list@[i].0@,
                    );
                }
            }
            return Err(e);
        },
    };
    proof {
        if config.files_map is None {
            assert(ov@ =~= Seq::<ResolvedOverride>::empty());
        }
    }
    let mut out: Vec<OutFile> = Vec::new();
    let is_local = match template {
        crate::project_template::ProjectTemplate::Local(_) => true,
        _ => false,
    };
    let empty = String::new();
    match plan_entries(
        &source.entries,
        empty.as_str(),
        empty.as_str(),
        is_local,
        &ov,
        config.template.extension.as_str(),
        engine,
        data,
        extras,
        env,
        &mut out,
    ) {
        Ok(()) => {
            proof {
                assert(out@.skip(0) =~= out@);
            }
            Ok(out)
        },
        Err(e) => Err(e),
    }
}

/// The compute core of source generation, once the config is resolved and
/// the data collected: finds the resolved template source in the tree,
/// synthesizes the extra variables, and walks the source into the plan.
/// Success is owed when the source exists and the engine is never consulted:
/// no overrides declared and no templated file surviving.
pub fn generate_plan(
    tree: &DirNode,
    template: &crate::project_template::ProjectTemplate,
    config: &TemplateConfig,
    engine: &TemplateEngine,
    data: &CollectedData,
    template_dir: &str,
    project_dir: &str,
    current_dir: &str,
    env: &TextMap,
) -> (r: Result<Vec<OutFile>, Error>)
    requires
        config.template.extension@.len() >= 1,
    ensures
        ({
            match crate::pathutil::spec_normalized(config.template.path@) {
                None => r matches Err(e) && e@ == "Template source not found"@,
                Some(comps) => match crate::tree::spec_find_dir(*tree, comps) {
                    None => r matches Err(e) && e@ == "Template source not found"@,
                    Some(src) => {
                        &&& (r matches Ok(out) ==> exists|ov: Seq<ResolvedOverride>|
                            {
                                &&& #[trigger] spec_overrides_resolved(config.files_map, ov)
                                &&& spec_out_matches(
                                    out@,
                                    spec_entries_plan(
                                        src.entries@,
                                        0,
                                        Seq::<char>::empty(),
                                        Seq::<char>::empty(),
                                        template is Local,
                                        ov,
                                        config.template.extension@,
                                    ),
                                )
                            })
                        &&& (config.files_map is None && spec_plan_needs_no_render(
                            src.entries@,
                            template is Local,
                            config.template.extension@,
                        ) ==> r is Ok)
                        &&& (r matches Err(e) ==> spec_walk_err_text(e@))
                    },
                },
            }
        }),
{
    let comps = match crate::pathutil::normalize_path(config.template.path.as_str()) {
        Some(c) => c,
        None => {
            return Err(Error::new(String::from_str("Template source not found")));
        },
    };
    let source = match crate::tree::find_dir(tree, &comps) {
        Some(d) => d,
        None => {
            return Err(Error::new(String::from_str("Template source not found")));
        },
    };
    let source_path = if comps.len() == 0 {
        String::from_str(template_dir)
    } else {
        let joined = crate::pathutil::join_segments(&comps);
        crate::pathutil::join_rel(template_dir, joined.as_str())
    };
    let extras = crate::post_generator::gen_extra_template_data(
        template_dir,
        source_path.as_str(),
        project_dir,
        current_dir,
    );
    let r = walk_template_dir(source, template, config, engine, data, &extras, env);
    proof {
        assert(crate::pathutil::spec_normalized(config.template.path@) == Some(
            comps.deep_view(),
        ));
        assert(crate::tree::spec_find_dir(*tree, comps.deep_view()) == Some(*source));
    }
    r
}

/// What executing a plan does to a directory of files, modelled as a map
/// from relative path to content: each output in order backs an existing
/// file up under its name plus `.old`, then writes the new content.
pub open spec fn spec_apply_plan(
    fs: Map<Seq<char>, OutContent>,
    plan: Seq<OutFile>,
) -> Map<Seq<char>, OutContent>
    decreases plan.len(),
{
    if plan.len() == 0 {
        fs
    } else {
        let o = plan[0];
        let fs1 = if fs.dom().contains(o.rel_path@) {
            fs.insert(o.rel_path@ + ".old"@, fs[o.rel_path@]).insert(o.rel_path@, o.content)
        } else {
            fs.insert(o.rel_path@, o.content)
        };
        spec_apply_plan(fs1, plan.drop_first())
    }
}

/// Executing a plan never removes a file: whatever existed before still
/// exists after, possibly with new content.
pub proof fn lemma_apply_plan_keeps(
    fs: Map<Seq<char>, OutContent>,
    plan: Seq<OutFile>,
    p: Seq<char>,
)
    requires
        fs.dom().contains(p),
    ensures
        spec_apply_plan(fs, plan).dom().contains(p),
    decreases plan.len(),
{
    if plan.len() > 0 {
        let o = plan[0];
        let fs1 = if fs.dom().contains(o.rel_path@) {
            fs.insert(o.rel_path@ + ".old"@, fs[o.rel_path@]).insert(o.rel_path@, o.content)
        } else {
            fs.insert(o.rel_path@, o.content)
        };
        lemma_apply_plan_keeps(fs1, plan.drop_first(), p);
    }
}

/// Running a plan against a directory never loses what a previous run wrote:
/// for every planned destination that already existed when the run started,
/// a `.old` sibling exists once the run is done.
pub proof fn lemma_backup_before_overwrite(
    fs: Map<Seq<char>, OutContent>,
    plan: Seq<OutFile>,
    i: int,
)
    requires
        0 <= i < plan.len(),
        fs.dom().contains(plan[i].rel_path@),
    ensures
        spec_apply_plan(fs, plan).dom().contains(plan[i].rel_path@ + ".old"@),
    decreases i,
{
    let o = plan[0];
    let fs1 = if fs.dom().contains(o.rel_path@) {
        fs.insert(o.rel_path@ + ".old"@, fs[o.rel_path@]).insert(o.rel_path@, o.content)
    } else {
        fs.insert(o.rel_path@, o.content)
    };
    if i == 0 {
        assert(fs1.dom().contains(o.rel_path@ + ".old"@));
        lemma_apply_plan_keeps(fs1, plan.drop_first(), o.rel_path@ + ".old"@);
    } else {
        assert(plan.drop_first()[i - 1] == plan[i]);
        assert(fs1.dom().contains(plan[i].rel_path@));
        lemma_backup_before_overwrite(fs1, plan.drop_first(), i - 1);
    }
}

} // verus!
