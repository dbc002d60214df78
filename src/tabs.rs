//! The tabs of the device view.
use vstd::prelude::*;

verus! {

/// A tab of the device view; the two tabs form a cycle.
#[derive(Debug, Clone, Copy, PartialEq, Eq, Structural)]
pub enum DeviceTab {
    Routing,
    Filters,
}

/// The other tab.
pub open spec fn other_tab(t: DeviceTab) -> DeviceTab {
    match t {
        DeviceTab::Routing => DeviceTab::Filters,
        DeviceTab::Filters => DeviceTab::Routing,
    }
}

impl DeviceTab {
    /// The tab's title.
    pub fn title(&self) -> (r: &'static str)
        ensures
            r@ == (match self {
                DeviceTab::Routing => "Routing"@,
                DeviceTab::Filters => "Filters"@,
            }),
    {
        match self {
            DeviceTab::Routing => "Routing",
            DeviceTab::Filters => "Filters",
        }
    }

    /// All tabs, in display order.
    pub fn all() -> (r: Vec<DeviceTab>)
        ensures
            r@ == seq![DeviceTab::Routing, DeviceTab::Filters],
    {
        let mut r: Vec<DeviceTab> = Vec::new();
        r.push(DeviceTab::Routing);
        r.push(DeviceTab::Filters);
        assert(r@ =~= seq![DeviceTab::Routing, DeviceTab::Filters]);
        r
    }

    /// The tab after this one, wrapping around.
    pub fn next(&self) -> (r: DeviceTab)
        ensures
            r == other_tab(*self),
    {
        match self {
            DeviceTab::Routing => DeviceTab::Filters,
            DeviceTab::Filters => DeviceTab::Routing,
        }
    }

    /// The tab before this one, wrapping around.
    pub fn previous(&self) -> (r: DeviceTab)
        ensures
            r == other_tab(*self),
    {
        match self {
            DeviceTab::Routing => DeviceTab::Filters,
            DeviceTab::Filters => DeviceTab::Routing,
        }
    }
}

} // verus!
