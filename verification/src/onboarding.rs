//! The first-run walkthrough: which steps there are and which one comes next.
use crate::settings::ClippoSettings;
use crate::text::owned;
use crate::types::copy_string;
use vstd::prelude::*;

verus! {

#[derive(Debug, Clone, Copy, PartialEq, Eq, Hash, Structural)]
pub enum OnboardingStepId {
    ClipboardAccess,
    PasteAutomation,
    GlobalShortcut,
    PrivacyDefaults,
    Complete,
}

#[derive(Debug, Clone, PartialEq, Eq)]
pub struct OnboardingStep {
    pub id: OnboardingStepId,
    pub title_key: String,
    pub body_key: String,
    pub action_label_key: Option<String>,
    pub required: bool,
    pub completed: bool,
    pub shortcut_hint: Option<String>,
}

#[derive(Debug, Clone, PartialEq, Eq)]
pub struct OnboardingProgress {
    pub completed_steps: Vec<OnboardingStepId>,
}

#[derive(Debug, Clone, PartialEq, Eq)]
pub struct OnboardingViewModel {
    pub steps: Vec<OnboardingStep>,
    pub current_step: Option<OnboardingStepId>,
    pub complete: bool,
}

/// A step as plain values.
pub struct StepView {
    pub id: OnboardingStepId,
    pub title_key: Seq<char>,
    pub body_key: Seq<char>,
    pub action_label_key: Option<Seq<char>>,
    pub required: bool,
    pub completed: bool,
    pub shortcut_hint: Option<Seq<char>>,
}

pub open spec fn opt_view(o: Option<String>) -> Option<Seq<char>> {
    match o {
        Some(s) => Some(s@),
        None => None,
    }
}

impl OnboardingStep {
    pub open spec fn view_step(self) -> StepView {
        StepView {
            id: self.id,
            title_key: self.title_key@,
            body_key: self.body_key@,
            action_label_key: opt_view(self.action_label_key),
            required: self.required,
            completed: self.completed,
            shortcut_hint: opt_view(self.shortcut_hint),
        }
    }
}

pub open spec fn step_views(steps: Seq<OnboardingStep>) -> Seq<StepView> {
    steps.map_values(|s: OnboardingStep| s.view_step())
}

pub open spec fn step_view(
    id: OnboardingStepId,
    keys: (Seq<char>, Seq<char>, Seq<char>),
    required: bool,
    completed: bool,
    shortcut_hint: Option<Seq<char>>,
) -> StepView {
    StepView {
        id,
        title_key: keys.0,
        body_key: keys.1,
        action_label_key: Some(keys.2),
        required,
        completed,
        shortcut_hint,
    }
}

/// The five steps in order. The paste step counts as done when automatic paste is
/// off, and the closing step is always done.
pub open spec fn onboarding_steps(
    paste_automatically: bool,
    open_history: Seq<char>,
    done: Seq<OnboardingStepId>,
) -> Seq<StepView> {
    seq![
        step_view(
            OnboardingStepId::ClipboardAccess,
            ("onboarding.clipboard.title"@, "onboarding.clipboard.body"@, "onboarding.clipboard.action"@),
            true,
            done.contains(OnboardingStepId::ClipboardAccess),
            None,
        ),
        step_view(
            OnboardingStepId::PasteAutomation,
            ("onboarding.paste.title"@, "onboarding.paste.body"@, "onboarding.paste.action"@),
            false,
            done.contains(OnboardingStepId::PasteAutomation) || !paste_automatically,
            None,
        ),
        step_view(
            OnboardingStepId::GlobalShortcut,
            ("onboarding.shortcut.title"@, "onboarding.shortcut.body"@, "onboarding.shortcut.action"@),
            true,
            done.contains(OnboardingStepId::GlobalShortcut),
            Some(open_history),
        ),
        step_view(
            OnboardingStepId::PrivacyDefaults,
            ("onboarding.privacy.title"@, "onboarding.privacy.body"@, "onboarding.privacy.action"@),
            true,
            done.contains(OnboardingStepId::PrivacyDefaults),
            None,
        ),
        step_view(
            OnboardingStepId::Complete,
            ("onboarding.complete.title"@, "onboarding.complete.body"@, "onboarding.complete.action"@),
            false,
            true,
            None,
        ),
    ]
}

/// The first step that is not done (and, with `required_only`, is required).
pub open spec fn first_pending(steps: Seq<StepView>, required_only: bool) -> Option<OnboardingStepId>
    decreases steps.len(),
{
    if steps.len() == 0 {
        None
    } else if (!required_only || steps[0].required) && !steps[0].completed {
        Some(steps[0].id)
    } else {
        first_pending(steps.drop_first(), required_only)
    }
}

/// The step to show: the first pending required step, else the first pending step.
pub open spec fn next_step(steps: Seq<StepView>) -> Option<OnboardingStepId> {
    match first_pending(steps, true) {
        Some(id) => Some(id),
        None => first_pending(steps, false),
    }
}

/// The walkthrough is complete exactly when clipboard access, the shortcut and the
/// privacy review are done, and paste automation is done or automatic paste is off.
pub proof fn lemma_onboarding_complete_iff(
    paste_automatically: bool,
    open_history: Seq<char>,
    done: Seq<OnboardingStepId>,
)
    ensures
        next_step(onboarding_steps(paste_automatically, open_history, done)) is None <==> (done.contains(
            OnboardingStepId::ClipboardAccess,
        ) && (done.contains(OnboardingStepId::PasteAutomation) || !paste_automatically)
            && done.contains(OnboardingStepId::GlobalShortcut) && done.contains(
            OnboardingStepId::PrivacyDefaults,
        )),
{
    let steps = onboarding_steps(paste_automatically, open_history, done);
    reveal_with_fuel(first_pending, 6);
    assert(steps.drop_first().drop_first().drop_first().drop_first().drop_first().len() == 0);
}

impl Default for OnboardingProgress {
    fn default() -> (r: Self)
        ensures
            r.completed_steps@ == Seq::<OnboardingStepId>::empty(),
    {
        OnboardingProgress { completed_steps: Vec::new() }
    }
}

impl OnboardingProgress {
    /// Whether the step was marked done.
    pub fn is_completed(&self, step_id: OnboardingStepId) -> (r: bool)
        ensures
            r == self.completed_steps@.contains(step_id),
    {
        let mut i: usize = 0;
        while i < self.completed_steps.len()
            invariant
                i <= self.completed_steps.len(),
                forall|k: int| 0 <= k < i ==> self.completed_steps@[k] != step_id,
            decreases self.completed_steps.len() - i,
        {
            if self.completed_steps[i] == step_id {
                return true;
            }
            i = i + 1;
        }
        false
    }
}

fn make_step(
    id: OnboardingStepId,
    title_key: &str,
    body_key: &str,
    action_label_key: &str,
    required: bool,
    completed: bool,
    shortcut_hint: Option<String>,
) -> (r: OnboardingStep)
    ensures
        r.view_step() == (StepView {
            id,
            title_key: title_key@,
            body_key: body_key@,
            action_label_key: Some(action_label_key@),
            required,
            completed,
            shortcut_hint: opt_view(shortcut_hint),
        }),
{
    OnboardingStep {
        id,
        title_key: owned(title_key),
        body_key: owned(body_key),
        action_label_key: Some(owned(action_label_key)),
        required,
        completed,
        shortcut_hint,
    }
}

/// The first step of `steps` that is not done (and, with `required_only`, is required).
fn find_pending(steps: &Vec<OnboardingStep>, required_only: bool) -> (r: Option<OnboardingStepId>)
    ensures
        r == first_pending(step_views(steps@), required_only),
{
    let ghost sv = step_views(steps@);
    let mut i: usize = 0;
    assert(sv.skip(0) =~= sv);
    while i < steps.len()
        invariant
            i <= steps.len(),
            sv == step_views(steps@),
            first_pending(sv, required_only) == first_pending(sv.skip(i as int), required_only),
        decreases steps.len() - i,
    {
        let ghost rest = sv.skip(i as int);
        assert(rest[0] == steps@[i as int].view_step());
        assert(rest.drop_first() =~= sv.skip(i + 1));
        if (!required_only || steps[i].required) && !steps[i].completed {
            return Some(steps[i].id);
        }
        i = i + 1;
    }
    assert(sv.skip(i as int) =~= Seq::<StepView>::empty());
    None
}

impl OnboardingViewModel {
    /// The walkthrough for the given settings and progress. It is complete when no step
    /// is pending; the step shown then is the closing one.
    pub fn from_progress(settings: &ClippoSettings, progress: &OnboardingProgress) -> (r: Self)
        ensures
            step_views(r.steps@) == onboarding_steps(
                settings.paste_automatically,
                settings.shortcuts.open_history@,
                progress.completed_steps@,
            ),
            r.complete == next_step(step_views(r.steps@)).is_none(),
            r.current_step == (match next_step(step_views(r.steps@)) {
                Some(id) => Some(id),
                None => Some(OnboardingStepId::Complete),
            }),
    {
        let mut steps: Vec<OnboardingStep> = Vec::new();
        steps.push(
            make_step(
                OnboardingStepId::ClipboardAccess,
                "onboarding.clipboard.title",
                "onboarding.clipboard.body",
                "onboarding.clipboard.action",
                true,
                progress.is_completed(OnboardingStepId::ClipboardAccess),
                None,
            ),
        );
        steps.push(
            make_step(
                OnboardingStepId::PasteAutomation,
                "onboarding.paste.title",
                "onboarding.paste.body",
                "onboarding.paste.action",
                false,
                progress.is_completed(OnboardingStepId::PasteAutomation)
                    || !settings.paste_automatically,
                None,
            ),
        );
        steps.push(
            make_step(
                OnboardingStepId::GlobalShortcut,
                "onboarding.shortcut.title",
                "onboarding.shortcut.body",
                "onboarding.shortcut.action",
                true,
                progress.is_completed(OnboardingStepId::GlobalShortcut),
                Some(copy_string(&settings.shortcuts.open_history)),
            ),
        );
        steps.push(
            make_step(
                OnboardingStepId::PrivacyDefaults,
                "onboarding.privacy.title",
                "onboarding.privacy.body",
                "onboarding.privacy.action",
                true,
                progress.is_completed(OnboardingStepId::PrivacyDefaults),
                None,
            ),
        );
        steps.push(
            make_step(
                OnboardingStepId::Complete,
                "onboarding.complete.title",
                "onboarding.complete.body",
                "onboarding.complete.action",
                false,
                true,
                None,
            ),
        );
        proof {
            assert(step_views(steps@) =~= onboarding_steps(
                settings.paste_automatically,
                settings.shortcuts.open_history@,
                progress.completed_steps@,
            ));
        }
        let current = match find_pending(&steps, true) {
            Some(id) => Some(id),
            None => find_pending(&steps, false),
        };
        let complete = current.is_none();
        OnboardingViewModel {
            steps,
            current_step: if complete {
                Some(OnboardingStepId::Complete)
            } else {
                current
            },
            complete,
        }
    }
}

} // verus!
