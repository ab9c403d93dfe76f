//! What a saved terminal shows: a shell, or a tmux session.

use vstd::prelude::*;

verus! {

/// The kind of a terminal that runs a shell.
pub const SHELL_TERMINAL_KIND: &'static str = "shell";

/// The kind of a terminal that is attached to a tmux session. The value is the one under which
/// such terminals have always been saved, so that older ones continue to be restored.
pub const TMUX_TERMINAL_KIND: &'static str = "remote_tmux";

/// What a saved terminal shows.
#[derive(Clone, Debug, PartialEq, Eq)]
pub enum SerializedTerminalSource {
    Shell,
    /// The tmux session with this name.
    Tmux(String),
}

/// Why the source of a saved terminal cannot be told.
#[derive(Clone, Debug, PartialEq, Eq)]
pub enum TerminalSourceError {
    MissingSessionName,
    UnknownKind(String),
}

/// What a [`SerializedTerminalSource`] is.
pub enum SourceView {
    Shell,
    Tmux(Seq<char>),
}

/// What a [`TerminalSourceError`] is.
pub enum SourceErrorView {
    MissingSessionName,
    UnknownKind(Seq<char>),
}

impl View for SerializedTerminalSource {
    type V = SourceView;

    open spec fn view(&self) -> SourceView {
        match *self {
            SerializedTerminalSource::Shell => SourceView::Shell,
            SerializedTerminalSource::Tmux(session_name) => SourceView::Tmux(session_name@),
        }
    }
}

impl View for TerminalSourceError {
    type V = SourceErrorView;

    open spec fn view(&self) -> SourceErrorView {
        match *self {
            TerminalSourceError::MissingSessionName => SourceErrorView::MissingSessionName,
            TerminalSourceError::UnknownKind(kind) => SourceErrorView::UnknownKind(kind@),
        }
    }
}

/// A text that may be absent.
pub open spec fn text_view(text: Option<String>) -> Option<Seq<char>> {
    match text {
        Some(text) => Some(text@),
        None => None,
    }
}

/// The kind under which a terminal is saved: that of a tmux terminal if and only if there is the
/// name of a session.
pub open spec fn kind_of_session(session_name: Option<Seq<char>>) -> Seq<char> {
    match session_name {
        Some(_) => TMUX_TERMINAL_KIND@,
        None => SHELL_TERMINAL_KIND@,
    }
}

/// What a terminal shows that was saved with a kind and, perhaps, the name of a session.
pub open spec fn source_of_row(kind: Seq<char>, session_name: Option<Seq<char>>) -> Result<
    SourceView,
    SourceErrorView,
> {
    if kind == SHELL_TERMINAL_KIND@ {
        Ok(SourceView::Shell)
    } else if kind == TMUX_TERMINAL_KIND@ {
        match session_name {
            Some(session_name) => Ok(SourceView::Tmux(session_name)),
            None => Err(SourceErrorView::MissingSessionName),
        }
    } else {
        Err(SourceErrorView::UnknownKind(kind))
    }
}

/// The text that the debug format of the standard library gives for a string.
pub uninterp spec fn debug_format(text: Seq<char>) -> Seq<char>;

/// The debug format of a string, `<str as std::fmt::Debug>::fmt`: the string in quotes, with
/// escapes for the characters that need one. The contract names the result, which depends on
/// the string alone.
#[verifier::external_body]
fn format_debug(text: &str) -> (formatted: String)
    ensures
        formatted@ == debug_format(text@),
{
    format!("{text:?}")
}

impl TerminalSourceError {
    /// The text of the error.
    pub fn message(&self) -> (message: String)
        ensures
            message@ == match self@ {
                SourceErrorView::MissingSessionName =>
                    "tmux terminal is missing its session name"@,
                SourceErrorView::UnknownKind(kind) => "unknown terminal kind "@ + debug_format(
                    kind,
                ),
            },
    {
        match self {
            TerminalSourceError::MissingSessionName =>
                "tmux terminal is missing its session name".to_owned(),
            TerminalSourceError::UnknownKind(kind) => {
                let formatted = format_debug(kind.as_str());
                unknown_kind_message(formatted.as_str())
            },
        }
    }
}

/// The text of the error about a kind whose debug format is `formatted`.
pub fn unknown_kind_message(formatted: &str) -> (message: String)
    ensures
        message@ == "unknown terminal kind "@ + formatted@,
{
    "unknown terminal kind ".to_owned().concat(formatted)
}

/// The kind under which a terminal is saved.
pub fn terminal_kind(tmux_session_name: &Option<String>) -> (kind: &'static str)
    ensures
        kind@ == kind_of_session(text_view(*tmux_session_name)),
{
    if tmux_session_name.is_some() {
        TMUX_TERMINAL_KIND
    } else {
        SHELL_TERMINAL_KIND
    }
}

/// Reads what a terminal shows from the kind and the name of a session with which it was saved.
pub fn read_terminal_source(kind: &String, session_name: &Option<String>) -> (source: Result<
    SerializedTerminalSource,
    TerminalSourceError,
>)
    ensures
        match source {
            Ok(source) => source_of_row(kind@, text_view(*session_name)) == Ok::<
                SourceView,
                SourceErrorView,
            >(source@),
            Err(error) => source_of_row(kind@, text_view(*session_name)) == Err::<
                SourceView,
                SourceErrorView,
            >(error@),
        },
{
    if *kind == SHELL_TERMINAL_KIND.to_owned() {
        Ok(SerializedTerminalSource::Shell)
    } else if *kind == TMUX_TERMINAL_KIND.to_owned() {
        match session_name {
            Some(session_name) => Ok(SerializedTerminalSource::Tmux(session_name.clone())),
            None => Err(TerminalSourceError::MissingSessionName),
        }
    } else {
        Err(TerminalSourceError::UnknownKind(kind.clone()))
    }
}

proof fn lemma_kinds_differ()
    ensures
        SHELL_TERMINAL_KIND@ != TMUX_TERMINAL_KIND@,
{
    reveal_strlit("shell");
    reveal_strlit("remote_tmux");
    assert(SHELL_TERMINAL_KIND@.len() != TMUX_TERMINAL_KIND@.len());
}

/// What a terminal shows is read back as it was saved: the session with its exact name, or a
/// shell.
pub proof fn law_source_round_trips(session_name: Option<Seq<char>>)
    ensures
        source_of_row(kind_of_session(session_name), session_name) == Ok::<
            SourceView,
            SourceErrorView,
        >(
            match session_name {
                Some(session_name) => SourceView::Tmux(session_name),
                None => SourceView::Shell,
            },
        ),
{
    lemma_kinds_differ();
}

/// A terminal is a shell only if it was saved as one: neither a tmux terminal without a session
/// nor a terminal of an unknown kind becomes a shell.
pub proof fn law_only_shells_are_shells(kind: Seq<char>, session_name: Option<Seq<char>>)
    ensures
        source_of_row(kind, session_name) == Ok::<SourceView, SourceErrorView>(SourceView::Shell)
            <==> kind == SHELL_TERMINAL_KIND@,
        kind == TMUX_TERMINAL_KIND@ && session_name is None ==> source_of_row(kind, session_name)
            is Err,
{
    lemma_kinds_differ();
}

/// What a terminal shows, for every kind and name with which it can be saved: a shell for the
/// kind of shells, whatever the name; the session with the name for the kind of tmux terminals,
/// and an error without one; an error that tells the kind for any other.
pub proof fn law_every_kind_is_told_apart(kind: Seq<char>, session_name: Option<Seq<char>>)
    ensures
        kind == "shell"@ ==> source_of_row(kind, session_name) == Ok::<SourceView, SourceErrorView>(
            SourceView::Shell,
        ),
        kind == "remote_tmux"@ ==> match session_name {
            Some(name) => source_of_row(kind, session_name) == Ok::<SourceView, SourceErrorView>(
                SourceView::Tmux(name),
            ),
            None => source_of_row(kind, session_name) == Err::<SourceView, SourceErrorView>(
                SourceErrorView::MissingSessionName,
            ),
        },
        kind != "shell"@ && kind != "remote_tmux"@ ==> source_of_row(kind, session_name) == Err::<
            SourceView,
            SourceErrorView,
        >(SourceErrorView::UnknownKind(kind)),
{
    lemma_kinds_differ();
}

/// A terminal is saved as a tmux terminal if and only if there is the name of a session, and else
/// as a shell.
pub proof fn law_kind_follows_the_session(session_name: Option<Seq<char>>)
    ensures
        session_name is Some <==> kind_of_session(session_name) == "remote_tmux"@,
        session_name is None <==> kind_of_session(session_name) == "shell"@,
{
    lemma_kinds_differ();
}

} // verus!
