//! Pages of the user interface that hold no state of their own; what they
//! show is drawn by the application.
use vstd::prelude::*;

verus! {

/// The demo page.
pub struct DemoPage {}

impl DemoPage {
    pub fn new() -> (r: DemoPage)
        ensures
            r == (DemoPage {}),
    {
        DemoPage {}
    }
}

/// The page shown while the client loads.
pub struct LoadingPage {}

impl LoadingPage {
    pub fn new() -> (r: LoadingPage)
        ensures
            r == (LoadingPage {}),
    {
        LoadingPage {}
    }
}

impl Default for LoadingPage {
    fn default() -> (r: LoadingPage)
        ensures
            r == (LoadingPage {}),
    {
        LoadingPage::new()
    }
}

/// The menu shown when connecting to a server failed.
pub struct ConnectErrorMenu {}

impl ConnectErrorMenu {
    pub fn new() -> (r: ConnectErrorMenu)
        ensures
            r == (ConnectErrorMenu {}),
    {
        ConnectErrorMenu {}
    }
}

/// The menu shown in game.
pub struct IngameMenu {}

impl IngameMenu {
    pub fn new() -> (r: IngameMenu)
        ensures
            r == (IngameMenu {}),
    {
        IngameMenu {}
    }
}

} // verus!
