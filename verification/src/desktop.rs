//! Installed desktop applications, as the desktop-entry scanner reports
//! them, and the running windows matched to them.
use vstd::prelude::*;

verus! {

/// A desktop application, or a running window of one.
#[derive(Debug, Clone)]
pub struct DesktopApp {
    pub name: String,
    pub exec_cmd: String,
    pub icon: Option<String>,
    pub app_id: Option<String>,
    pub window_title: Option<String>,
}

pub struct DesktopAppView {
    pub name: Seq<char>,
    pub exec_cmd: Seq<char>,
    pub icon: Option<Seq<char>>,
    pub app_id: Option<Seq<char>>,
    pub window_title: Option<Seq<char>>,
}

pub open spec fn opt_view(o: Option<String>) -> Option<Seq<char>> {
    match o {
        Some(s) => Some(s@),
        None => None,
    }
}

impl View for DesktopApp {
    type V = DesktopAppView;

    open spec fn view(&self) -> DesktopAppView {
        DesktopAppView {
            name: self.name@,
            exec_cmd: self.exec_cmd@,
            icon: opt_view(self.icon),
            app_id: opt_view(self.app_id),
            window_title: opt_view(self.window_title),
        }
    }
}

pub open spec fn apps_view(v: Seq<DesktopApp>) -> Seq<DesktopAppView> {
    v.map_values(|a: DesktopApp| a@)
}

/// A copy of an optional string.
pub fn copy_opt(o: &Option<String>) -> (r: Option<String>)
    ensures
        opt_view(r) == opt_view(*o),
{
    match o {
        Some(s) => Some(s.clone()),
        None => None,
    }
}

/// A copy of an application record.
pub fn copy_app(a: &DesktopApp) -> (r: DesktopApp)
    ensures
        r@ == a@,
{
    DesktopApp {
        name: a.name.clone(),
        exec_cmd: a.exec_cmd.clone(),
        icon: copy_opt(&a.icon),
        app_id: copy_opt(&a.app_id),
        window_title: copy_opt(&a.window_title),
    }
}

} // verus!
