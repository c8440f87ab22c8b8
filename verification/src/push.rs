//! Pushing a packed catalog with `oras`: the invocations that copy an
//! exported layout to a registry, the tagged root first and then the
//! referrers of each manifest that has some.
use vstd::prelude::*;
use vstd::string::*;
use crate::cli::{
    OciPushOptions, arg_views, build_oras_cp_args, build_oras_cp_referrer_args, oras_options,
    spec_target_repository, target_repository,
};
use crate::oci::OciArtifactSet;
use crate::text::opt_view;

verus! {

/// The arguments of each invocation, each seen as a list of texts.
pub open spec fn plan_views(p: Seq<Vec<String>>) -> Seq<Seq<Seq<char>>> {
    p.map_values(|args: Vec<String>| arg_views(args@))
}

/// The `oras cp` invocations that push artifacts exported to `layout_dir`:
/// the root tagged `tag` to `target`, then, for each digest under which
/// referrers are held, in digest order, that digest's referrers to the
/// target's repository.
pub open spec fn spec_push_plan(
    layout_dir: Seq<char>,
    referrer_digests: Seq<Seq<char>>,
    target: Seq<char>,
    tag: Seq<char>,
    to_layout: Option<Seq<char>>,
    plain_http: bool,
    insecure: bool,
) -> Seq<Seq<Seq<char>>> {
    let options = oras_options(to_layout, plain_http, insecure);
    seq![options + seq![layout_dir + ":"@ + tag, target]] + referrer_digests.map_values(
        |d: Seq<char>| options + seq![layout_dir + "@"@ + d, spec_target_repository(target)],
    )
}

/// The invocations of `oras` that push artifacts exported to
/// `layout_dir`, in the order they run; a failing one ends the push.
pub fn oras_push_plan(artifacts: &OciArtifactSet, layout_dir: &str, options: &OciPushOptions) -> (r: Vec<Vec<String>>)
    ensures
        plan_views(r@) == spec_push_plan(
            layout_dir@,
            artifacts.referrers@.map_values(|p: (String, Vec<crate::oci::OciImageManifest>)| p.0@),
            options.target@,
            options.tag@,
            opt_view(options.to_oci_layout_path),
            options.plain_http,
            options.insecure,
        ),
{
    let to_layout: Option<&str> = match &options.to_oci_layout_path {
        Some(p) => Some(p.as_str()),
        None => None,
    };
    let ghost tl = opt_view(options.to_oci_layout_path);
    let ghost digests = artifacts.referrers@.map_values(|p: (String, Vec<crate::oci::OciImageManifest>)| p.0@);
    let ghost want = spec_push_plan(
        layout_dir@,
        digests,
        options.target@,
        options.tag@,
        tl,
        options.plain_http,
        options.insecure,
    );
    let mut plan: Vec<Vec<String>> = Vec::new();
    plan.push(
        build_oras_cp_args(
            layout_dir,
            options.tag.as_str(),
            options.target.as_str(),
            to_layout,
            options.plain_http,
            options.insecure,
        ),
    );
    let repository = target_repository(options.target.as_str());
    let mut i: usize = 0;
    while i < artifacts.referrers.len()
        invariant
            i <= artifacts.referrers@.len(),
            digests == artifacts.referrers@.map_values(|p: (String, Vec<crate::oci::OciImageManifest>)| p.0@),
            want == spec_push_plan(layout_dir@, digests, options.target@, options.tag@, tl, options.plain_http, options.insecure),
            tl == opt_view(options.to_oci_layout_path),
            (match to_layout {
                Some(p) => Some(p@),
                None => None::<Seq<char>>,
            }) == tl,
            repository@ == spec_target_repository(options.target@),
            plan@.len() == i + 1,
            forall|k: int| 0 <= k < plan@.len() ==> #[trigger] arg_views(plan@[k]@) == want[k],
        decreases artifacts.referrers.len() - i,
    {
        let args = build_oras_cp_referrer_args(
            layout_dir,
            artifacts.referrers[i].0.as_str(),
            repository.as_str(),
            to_layout,
            options.plain_http,
            options.insecure,
        );
        assert(arg_views(args@) == want[i + 1]);
        plan.push(args);
        i = i + 1;
    }
    assert(plan_views(plan@) =~= want);
    plan
}


/// What the push does next: run the invocation of the plan at an index, or
/// finish with an exit status.
#[derive(Debug, Clone, Copy, PartialEq, Eq, Structural)]
pub enum PushAction {
    Run(usize),
    Finish(i32),
}

/// The exit status of a failed invocation: its own code, or 1 when it has
/// none (it could not be started, or a signal ended it).
pub open spec fn failure_status(code: Option<i32>) -> i32 {
    match code {
        Some(c) => c,
        None => 1,
    }
}

/// The first step of a push of `plan_len` invocations: the first of them,
/// or success at once when there are none.
pub fn first_push_action(plan_len: usize) -> (r: PushAction)
    ensures
        r == (if plan_len > 0 { PushAction::Run(0) } else { PushAction::Finish(0) }),
{
    if plan_len > 0 {
        PushAction::Run(0)
    } else {
        PushAction::Finish(0)
    }
}

/// The step after invocation `i` of a plan of `plan_len` invocations ended
/// with `outcome` (`Err` holding the exit code, if any, of a failure): a
/// failure ends the push with that code, or 1 without one; a success runs
/// the next invocation, or ends the push with 0 after the last.
pub fn push_step(plan_len: usize, i: usize, outcome: Result<(), Option<i32>>) -> (r: PushAction)
    requires
        i < plan_len,
    ensures
        r == match outcome {
            Err(code) => PushAction::Finish(failure_status(code)),
            Ok(()) => if i + 1 < plan_len {
                PushAction::Run((i + 1) as usize)
            } else {
                PushAction::Finish(0)
            },
        },
{
    match outcome {
        Err(Some(c)) => PushAction::Finish(c),
        Err(None) => PushAction::Finish(1),
        Ok(()) => if i + 1 < plan_len {
            PushAction::Run(i + 1)
        } else {
            PushAction::Finish(0)
        },
    }
}

} // verus!
