//! The list of applications the user can pick a logging target from.
use vstd::prelude::*;
use crate::text::{TrimSet, trim, trim_chars};

verus! {

/// A top-level window as the window system reports it.
#[derive(Debug, Clone)]
pub struct RawWindow {
    pub hwnd: isize,
    pub visible: bool,
    pub title: String,
    pub process_id: u32,
    /// The executable file name of the owning process, where it could be read.
    pub process_name: Option<String>,
}

/// A visible, titled application window.
#[derive(Debug, Clone)]
pub struct AppWindow {
    pub hwnd: isize,
    pub title: String,
    pub process_id: u32,
    pub process_name: Option<String>,
}

/// The process name of an optional string, as characters.
pub open spec fn opt_view(s: Option<String>) -> Option<Seq<char>> {
    match s {
        Some(v) => Some(v@),
        None => None,
    }
}

/// Whether a raw window is listed: it is visible and its trimmed title is not empty.
pub open spec fn is_listed(w: RawWindow) -> bool {
    w.visible && trim(w.title@, TrimSet::Whitespace).len() > 0
}

/// `app` is the listed form of `w`: same handle, process id and process name,
/// and the title trimmed of white space.
pub open spec fn listed_as(w: RawWindow, app: AppWindow) -> bool {
    &&& app.hwnd == w.hwnd
    &&& app.title@ == trim(w.title@, TrimSet::Whitespace)
    &&& app.process_id == w.process_id
    &&& opt_view(app.process_name) == opt_view(w.process_name)
}

/// The listed windows among `raw`, in order.
pub open spec fn listed_windows(raw: Seq<RawWindow>) -> Seq<RawWindow>
    decreases raw.len(),
{
    if raw.len() == 0 {
        Seq::empty()
    } else {
        let rest = listed_windows(raw.drop_last());
        if is_listed(raw.last()) {
            rest.push(raw.last())
        } else {
            rest
        }
    }
}

fn clone_opt(s: &Option<String>) -> (r: Option<String>)
    ensures
        opt_view(r) == opt_view(*s),
{
    match s {
        Some(v) => Some(v.clone()),
        None => None,
    }
}

/// The applications among the raw windows: the visible windows with a
/// non-blank title, in order, each with its title trimmed.
pub fn list_running_applications(raw_windows: Vec<RawWindow>) -> (apps: Vec<AppWindow>)
    ensures
        apps.len() == listed_windows(raw_windows@).len(),
        forall|i: int|
            0 <= i < apps.len() ==> listed_as(listed_windows(raw_windows@)[i], #[trigger] apps@[i]),
{
    let mut apps: Vec<AppWindow> = Vec::new();
    let mut i: usize = 0;
    while i < raw_windows.len()
        invariant
            i <= raw_windows.len(),
            apps.len() == listed_windows(raw_windows@.take(i as int)).len(),
            forall|j: int|
                0 <= j < apps.len() ==> listed_as(
                    listed_windows(raw_windows@.take(i as int))[j],
                    #[trigger] apps@[j],
                ),
        decreases raw_windows.len() - i,
    {
        proof {
            assert(raw_windows@.take(i + 1).drop_last() =~= raw_windows@.take(i as int));
        }
        let w = &raw_windows[i];
        if w.visible {
            let title = trim_chars(w.title.as_str(), TrimSet::Whitespace);
            if !title.as_str().is_empty() {
                proof {
                    assert(title@.len() > 0);
                }
                apps.push(
                    AppWindow {
                        hwnd: w.hwnd,
                        title,
                        process_id: w.process_id,
                        process_name: clone_opt(&w.process_name),
                    },
                );
            } else {
                proof {
                    assert(title@.len() == 0);
                }
            }
        }
        i = i + 1;
    }
    proof {
        assert(raw_windows@.take(i as int) =~= raw_windows@);
    }
    apps
}

/// Every listed application has a title that is not blank.
pub proof fn law_listed_titles_are_not_blank(raw: Seq<RawWindow>, i: int)
    requires
        0 <= i < listed_windows(raw).len(),
    ensures
        is_listed(listed_windows(raw)[i]),
    decreases raw.len(),
{
    if raw.len() > 0 {
        let rest = listed_windows(raw.drop_last());
        if i < rest.len() {
            law_listed_titles_are_not_blank(raw.drop_last(), i);
        }
    }
}

} // verus!
