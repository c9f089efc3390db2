//! What the platform layer hands the core: application descriptions and the
//! clipboard watcher's switch. Application enumeration itself is platform
//! work outside the core; a platform without it reports nothing.

use vstd::prelude::*;

verus! {

/// What is known of one installed application.
#[derive(Debug)]
pub struct AppData {
    pub id: String,
    pub name: String,
    pub icon_path: String,
    pub keywords: Vec<String>,
    pub tag: String,
}

/// The mathematical value of an application description.
pub ghost struct AppDataView {
    pub id: Seq<char>,
    pub name: Seq<char>,
    pub icon_path: Seq<char>,
    pub keywords: Seq<Seq<char>>,
    pub tag: Seq<char>,
}

impl View for AppData {
    type V = AppDataView;

    open spec fn view(&self) -> AppDataView {
        AppDataView {
            id: self.id@,
            name: self.name@,
            icon_path: self.icon_path@,
            keywords: self.keywords@.map_values(|k: String| k@),
            tag: self.tag@,
        }
    }
}

/// Whether clipboard changes are being watched.
#[derive(Debug)]
pub struct ClipboardWatcher {
    pub enabled: bool,
}

impl ClipboardWatcher {
    /// Watching starts enabled.
    pub fn init() -> (w: ClipboardWatcher)
        ensures
            w.enabled,
    {
        ClipboardWatcher { enabled: true }
    }

    pub fn enabled(&mut self)
        ensures
            final(self).enabled,
    {
        self.enabled = true;
    }

    pub fn disabled(&mut self)
        ensures
            !final(self).enabled,
    {
        self.enabled = false;
    }

    pub fn is_enabled(&self) -> (r: bool)
        ensures
            r == self.enabled,
    {
        self.enabled
    }
}

/// On a platform without application enumeration no path describes an
/// application.
pub fn get_application_data(path: &str) -> (r: Option<AppData>)
    ensures
        r is None,
{
    None
}

/// On a platform without application enumeration there are no folders to
/// watch.
pub fn get_application_folders() -> (r: Vec<String>)
    ensures
        r@.len() == 0,
{
    Vec::new()
}

/// On a platform without application enumeration there are no application
/// files.
pub fn get_application_files() -> (r: Vec<String>)
    ensures
        r@.len() == 0,
{
    Vec::new()
}

/// On a platform without application enumeration the frontmost application
/// is unknown.
pub fn get_frontmost_application_data() -> (r: Option<AppData>)
    ensures
        r is None,
{
    None
}

} // verus!
