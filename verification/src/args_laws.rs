//! What holds of every command line that is written down and read.

use crate::args;
use crate::args::{ArgumentView, FoundView, OptionsView, ParsedView, SignalAction};
use crate::text;
use vstd::prelude::*;

verus! {

/// One thing that a command line may ask for.
pub enum Setting {
    Fake,
    Prompt(Seq<char>),
    Workspace(ArgumentView),
    EventLog(ArgumentView),
    FakeScript(ArgumentView),
    OnSignal(SignalAction),
}

/// A setting written down.
pub open spec fn written_setting(setting: Setting) -> Seq<ArgumentView> {
    match setting {
        Setting::Fake => seq![ArgumentView::Text("--fake"@)],
        Setting::Prompt(prompt) => seq![
            ArgumentView::Text("--prompt"@),
            ArgumentView::Text(prompt),
        ],
        Setting::Workspace(value) => seq![ArgumentView::Text("--workspace"@), value],
        Setting::EventLog(value) => seq![ArgumentView::Text("--event-log"@), value],
        Setting::FakeScript(value) => seq![ArgumentView::Text("--fake-script"@), value],
        Setting::OnSignal(SignalAction::Interrupt) => seq![
            ArgumentView::Text("--on-signal"@),
            ArgumentView::Text("interrupt"@),
        ],
        Setting::OnSignal(SignalAction::Cancel) => seq![
            ArgumentView::Text("--on-signal"@),
            ArgumentView::Text("cancel"@),
        ],
    }
}

/// The settings written down in a row.
pub open spec fn written(settings: Seq<Setting>) -> Seq<ArgumentView>
    decreases settings.len(),
{
    if settings.len() == 0 {
        Seq::empty()
    } else {
        written(settings.drop_last()) + written_setting(settings.last())
    }
}

/// The prompt that was given last.
pub open spec fn last_prompt(settings: Seq<Setting>) -> Option<Seq<char>>
    decreases settings.len(),
{
    if settings.len() == 0 {
        None
    } else if let Setting::Prompt(value) = settings.last() {
        Some(value)
    } else {
        last_prompt(settings.drop_last())
    }
}

/// The workspace that was given last.
pub open spec fn last_workspace(settings: Seq<Setting>) -> Option<ArgumentView>
    decreases settings.len(),
{
    if settings.len() == 0 {
        None
    } else if let Setting::Workspace(value) = settings.last() {
        Some(value)
    } else {
        last_workspace(settings.drop_last())
    }
}

/// The event log that was given last.
pub open spec fn last_event_log(settings: Seq<Setting>) -> Option<ArgumentView>
    decreases settings.len(),
{
    if settings.len() == 0 {
        None
    } else if let Setting::EventLog(value) = settings.last() {
        Some(value)
    } else {
        last_event_log(settings.drop_last())
    }
}

/// The script that was given last.
pub open spec fn last_fake_script(settings: Seq<Setting>) -> Option<ArgumentView>
    decreases settings.len(),
{
    if settings.len() == 0 {
        None
    } else if let Setting::FakeScript(value) = settings.last() {
        Some(value)
    } else {
        last_fake_script(settings.drop_last())
    }
}

/// The action on a signal that was given last.
pub open spec fn last_action(settings: Seq<Setting>) -> Option<SignalAction>
    decreases settings.len(),
{
    if settings.len() == 0 {
        None
    } else if let Setting::OnSignal(value) = settings.last() {
        Some(value)
    } else {
        last_action(settings.drop_last())
    }
}

spec fn nothing_found() -> FoundView {
    FoundView {
        fake: false,
        prompt: None,
        workspace: None,
        event_log: None,
        fake_script: None,
        signal_action: SignalAction::Interrupt,
    }
}

spec fn found_in(settings: Seq<Setting>) -> FoundView {
    FoundView {
        fake: settings.contains(Setting::Fake),
        prompt: last_prompt(settings),
        workspace: last_workspace(settings),
        event_log: last_event_log(settings),
        fake_script: last_fake_script(settings),
        signal_action: match last_action(settings) {
            Some(action) => action,
            None => SignalAction::Interrupt,
        },
    }
}

proof fn lemma_settings(settings: Seq<Setting>, rest: Seq<ArgumentView>)
    ensures
        args::parsed_from(written(settings) + rest, 0, nothing_found()) == args::parsed_from(
            written(settings) + rest,
            written(settings).len() as int,
            found_in(settings),
        ),
    decreases settings.len(),
{
    if settings.len() > 0 {
        let earlier = settings.drop_last();
        let last = settings.last();
        let tail = written_setting(last) + rest;
        let all = written(settings) + rest;
        assert(all =~= written(earlier) + tail);
        lemma_settings(earlier, tail);
        text::lemma_contains_after_push(earlier, last, Setting::Fake);
        assert(settings =~= earlier.push(last));
        let at = written(earlier).len() as int;
        let part = written_setting(last);
        assert(all[at] == part[0]);
        if part.len() == 2 {
            assert(all[at + 1] == part[1]);
        }
        reveal_strlit("--fake");
        reveal_strlit("--prompt");
        reveal_strlit("--workspace");
        reveal_strlit("--event-log");
        reveal_strlit("--fake-script");
        reveal_strlit("--on-signal");
        reveal_strlit("interrupt");
        reveal_strlit("cancel");
        assert("--workspace"@[2] != "--event-log"@[2]);
        assert("--workspace"@[2] != "--on-signal"@[2]);
        assert("--event-log"@[2] != "--on-signal"@[2]);
        assert("interrupt"@.len() != "cancel"@.len());
        assert(args::parsed_from(all, at, found_in(earlier)) == args::parsed_from(
            all,
            at + part.len() as int,
            found_in(settings),
        ));
    }
}

/// A command line that is written down and read asks for what was written: each
/// option for what it was given last, and nothing else. It is refused where the
/// provider, the prompt or the workspace is missing, or where the prompt is blank.
pub proof fn law_command_lines_are_read_back(settings: Seq<Setting>)
    ensures
        settings.contains(Setting::Fake) && (last_prompt(settings) matches Some(prompt)
            && !text::is_blank(prompt)) && last_workspace(settings) is Some ==> args::parsed(
            written(settings),
        ) == Ok::<ParsedView, Seq<char>>(
            ParsedView::Options(
                OptionsView {
                    prompt: last_prompt(settings)->Some_0,
                    workspace: last_workspace(settings)->Some_0,
                    event_log: last_event_log(settings),
                    fake_script: last_fake_script(settings),
                    signal_action: match last_action(settings) {
                        Some(action) => action,
                        None => SignalAction::Interrupt,
                    },
                },
            ),
        ),
        !settings.contains(Setting::Fake) || (last_prompt(settings) matches Some(prompt)
            ==> text::is_blank(prompt)) || last_workspace(settings) is None ==> args::parsed(
            written(settings),
        ) is Err,
{
    lemma_settings(settings, Seq::empty());
    assert(written(settings) + Seq::<ArgumentView>::empty() =~= written(settings));
}

/// A command line that asks for help behind settings comes to help, whatever else
/// follows.
pub proof fn law_help_is_given(
    settings: Seq<Setting>,
    word: Seq<char>,
    rest: Seq<ArgumentView>,
)
    requires
        word == "--help"@ || word == "-h"@,
    ensures
        args::parsed(written(settings) + (seq![ArgumentView::Text(word)] + rest)) == Ok::<
            ParsedView,
            Seq<char>,
        >(ParsedView::Help),
{
    reveal_strlit("--fake");
    reveal_strlit("--prompt");
    reveal_strlit("--workspace");
    reveal_strlit("--event-log");
    reveal_strlit("--fake-script");
    reveal_strlit("--on-signal");
    reveal_strlit("--help");
    reveal_strlit("-h");
    assert("--help"@[2] != "--fake"@[2]);
    let tail = seq![ArgumentView::Text(word)] + rest;
    lemma_settings(settings, tail);
    let all = written(settings) + tail;
    assert(all[written(settings).len() as int] == ArgumentView::Text(word));
}

/// A command line that holds anything but its options is refused.
pub proof fn law_other_words_are_refused(
    settings: Seq<Setting>,
    word: Seq<char>,
    rest: Seq<ArgumentView>,
)
    requires
        word != "--fake"@ && word != "--prompt"@ && word != "--workspace"@ && word
            != "--event-log"@ && word != "--fake-script"@ && word != "--on-signal"@ && word
            != "--help"@ && word != "-h"@,
    ensures
        args::parsed(written(settings) + (seq![ArgumentView::Text(word)] + rest)) is Err,
{
    let tail = seq![ArgumentView::Text(word)] + rest;
    lemma_settings(settings, tail);
    let all = written(settings) + tail;
    assert(all[written(settings).len() as int] == ArgumentView::Text(word));
}

/// A command line that breaks off behind an option that takes a value is refused.
pub proof fn law_missing_values_are_refused(settings: Seq<Setting>, word: Seq<char>)
    requires
        word == "--prompt"@ || word == "--workspace"@ || word == "--event-log"@ || word
            == "--fake-script"@ || word == "--on-signal"@,
    ensures
        args::parsed(written(settings) + seq![ArgumentView::Text(word)]) is Err,
{
    reveal_strlit("--fake");
    reveal_strlit("--prompt");
    reveal_strlit("--workspace");
    reveal_strlit("--event-log");
    reveal_strlit("--fake-script");
    reveal_strlit("--on-signal");
    reveal_strlit("--help");
    reveal_strlit("-h");
    assert("--workspace"@[2] != "--event-log"@[2]);
    assert("--workspace"@[2] != "--on-signal"@[2]);
    assert("--event-log"@[2] != "--on-signal"@[2]);
    let tail = seq![ArgumentView::Text(word)];
    lemma_settings(settings, tail);
    let all = written(settings) + tail;
    assert(all[written(settings).len() as int] == ArgumentView::Text(word));
}

} // verus!
