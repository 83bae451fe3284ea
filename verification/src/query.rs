use vstd::prelude::*;

use crate::cache::{lookup_model, StatusCache};

verus! {

/// How presentation code reads a lookup result: the two recognised
/// sentinel statuses get their own labels, any other status is shown as
/// the upstream sent it (escaped before display), and an absent hostname
/// reads "Not connected".
pub enum StatusClass {
    Ready,
    Down,
    Other(String),
    NotConnected,
}

/// The mathematical value of a `StatusClass`.
pub ghost enum StatusClassView {
    Ready,
    Down,
    Other(Seq<char>),
    NotConnected,
}

impl View for StatusClass {
    type V = StatusClassView;

    open spec fn view(&self) -> StatusClassView {
        match self {
            StatusClass::Ready => StatusClassView::Ready,
            StatusClass::Down => StatusClassView::Down,
            StatusClass::Other(s) => StatusClassView::Other(s@),
            StatusClass::NotConnected => StatusClassView::NotConnected,
        }
    }
}

/// The classification of a looked-up status: the "ready" and "down"
/// sentinels map to their classes, any other recorded status is carried
/// through verbatim, and absence reads as not connected.
pub open spec fn classify_model(entry: Option<Seq<char>>) -> StatusClassView {
    match entry {
        Option::None => StatusClassView::NotConnected,
        Option::Some(s) => if s == "ready"@ {
            StatusClassView::Ready
        } else if s == "down"@ {
            StatusClassView::Down
        } else {
            StatusClassView::Other(s)
        },
    }
}

/// Classify one lookup result for presentation.
pub fn classify_status(entry: Option<&String>) -> (c: StatusClass)
    ensures
        c@ == classify_model(match entry {
            Option::None => Option::None,
            Option::Some(s) => Option::Some(s@),
        }),
{
    match entry {
        Option::None => StatusClass::NotConnected,
        Option::Some(s) => {
            let ready: String = "ready".to_owned();
            if *s == ready {
                StatusClass::Ready
            } else {
                let down: String = "down".to_owned();
                if *s == down {
                    StatusClass::Down
                } else {
                    StatusClass::Other(s.clone())
                }
            }
        },
    }
}

impl StatusCache {
    /// Resolve a hostname to its presentation class: `lookup` composed
    /// with the classification.
    pub fn client_status(&self, hostname: &str) -> (c: StatusClass)
        requires
            self.wf(),
        ensures
            c@ == classify_model(lookup_model(self.entries_map(), hostname@)),
    {
        classify_status(self.lookup(hostname))
    }
}

/// How one character is written in escaped HTML text: the five
/// HTML-significant characters become their decimal character references,
/// every other character stands unchanged.
pub open spec fn html_escape_char(c: char) -> Seq<char> {
    if c == '"' {
        seq!['&', '#', '3', '4', ';']
    } else if c == '&' {
        seq!['&', '#', '3', '8', ';']
    } else if c == '\'' {
        seq!['&', '#', '3', '9', ';']
    } else if c == '<' {
        seq!['&', '#', '6', '0', ';']
    } else if c == '>' {
        seq!['&', '#', '6', '2', ';']
    } else {
        seq![c]
    }
}

/// A text with every character written in its escaped form.
pub open spec fn html_escaped(s: Seq<char>) -> Seq<char>
    decreases s.len(),
{
    if s.len() == 0 {
        Seq::empty()
    } else {
        html_escaped(s.drop_last()) + html_escape_char(s.last())
    }
}

/// Relies on `askama_escape::escape_html`: it writes `s` with `"`, `&`,
/// `'`, `<` and `>` replaced by their decimal character references and
/// every other character unchanged, and the `core::fmt::Write` impl of
/// `String` never fails, so the escape always runs to completion.
#[verifier::external_body]
fn escape_html_text(s: &str) -> (r: String)
    ensures
        r@ == html_escaped(s@),
{
    let mut out = String::new();
    // fmt::Write for String cannot fail, so the result is never partial.
    let _ = askama_escape::escape_html(&mut out, s);
    out
}

/// What presentation code renders for one classification: the label text
/// (escaped where it comes from the upstream), the badge's background
/// colour, and its text colour.
pub struct StatusBadge {
    pub label: String,
    pub background: String,
    pub text_color: String,
}

/// The rendered label and colours per classification: "Ready" on green,
/// "Down" on red, "Not connected" on red, and any other status verbatim —
/// escaped for safe embedding — in black on white.
pub open spec fn badge_model(c: StatusClassView) -> (Seq<char>, Seq<char>, Seq<char>) {
    match c {
        StatusClassView::Ready => ("Ready"@, "green"@, "white"@),
        StatusClassView::Down => ("Down"@, "red"@, "white"@),
        StatusClassView::Other(s) => (html_escaped(s), "white"@, "black"@),
        StatusClassView::NotConnected => ("Not connected"@, "red"@, "white"@),
    }
}

/// Turn a classification into the badge presentation code displays.
pub fn badge_for(class: &StatusClass) -> (b: StatusBadge)
    ensures
        (b.label@, b.background@, b.text_color@) == badge_model(class@),
{
    match class {
        StatusClass::Ready => StatusBadge {
            label: "Ready".to_owned(),
            background: "green".to_owned(),
            text_color: "white".to_owned(),
        },
        StatusClass::Down => StatusBadge {
            label: "Down".to_owned(),
            background: "red".to_owned(),
            text_color: "white".to_owned(),
        },
        StatusClass::Other(s) => StatusBadge {
            label: escape_html_text(s.as_str()),
            background: "white".to_owned(),
            text_color: "black".to_owned(),
        },
        StatusClass::NotConnected => StatusBadge {
            label: "Not connected".to_owned(),
            background: "red".to_owned(),
            text_color: "white".to_owned(),
        },
    }
}

} // verus!
