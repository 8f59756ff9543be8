//! Dashboard layouts for the monitoring surface, and the pure management
//! steps over a list of dashboards. Identifiers and wall-clock timestamps
//! are handed in by the caller.

use vstd::prelude::*;
use crate::util::str_eq;

verus! {

/// A customizable visualization layout.
#[derive(Debug, Clone)]
pub struct Dashboard {
    pub id: String,
    pub name: String,
    pub description: Option<String>,
    pub layout: Vec<GridItem>,
    pub widgets: Vec<Widget>,
    pub created_at: String,
    pub updated_at: String,
}

/// Position and size of one widget in the dashboard grid.
#[derive(Debug, Clone)]
pub struct GridItem {
    pub i: String,
    pub x: i32,
    pub y: i32,
    pub w: i32,
    pub h: i32,
}

/// A dashboard widget.
#[derive(Debug, Clone)]
pub enum Widget {
    TimeSeries { id: String, title: String, query: String },
    Value { id: String, title: String, stream: String, field: String, unit: Option<String> },
    Table { id: String, title: String, query: String, columns: Vec<String> },
    LogStream { id: String, title: String, stream: String },
}

/// Request to create a dashboard.
#[derive(Debug, Clone)]
pub struct CreateDashboardRequest {
    pub name: String,
    pub description: Option<String>,
}

/// Request to replace a dashboard's layout and widgets.
#[derive(Debug, Clone)]
pub struct UpdateDashboardRequest {
    pub layout: Vec<GridItem>,
    pub widgets: Vec<Widget>,
}

/// Find the first dashboard with the given id. Returns its index, or `None`
/// iff no dashboard carries the id.
pub fn find_dashboard(dashboards: &Vec<Dashboard>, id: &str) -> (r: Option<usize>)
    ensures
        r matches Some(i) ==> 0 <= i < dashboards@.len() && dashboards@[i as int].id@ == id@ && (
        forall|k: int| 0 <= k < i ==> dashboards@[k].id@ != id@),
        r is None <==> (forall|k: int| 0 <= k < dashboards@.len() ==> dashboards@[k].id@ != id@),
{
    let n = dashboards.len();
    let mut i: usize = 0;
    while i < n
        invariant
            0 <= i <= n,
            n == dashboards@.len(),
            forall|k: int| 0 <= k < i ==> dashboards@[k].id@ != id@,
        decreases n - i,
    {
        if str_eq(dashboards.get(i).unwrap().id.as_str(), id) {
            return Some(i);
        }
        i = i + 1;
    }
    None
}

/// Append a new dashboard with the given id and name, an empty layout, no
/// widgets, and both timestamps at `now`. Nothing else changes.
pub fn create_dashboard(
    dashboards: &mut Vec<Dashboard>,
    id: String,
    name: String,
    description: Option<String>,
    now: &str,
)
    ensures
        final(dashboards)@.len() == old(dashboards)@.len() + 1,
        forall|k: int|
            0 <= k < old(dashboards)@.len() ==> final(dashboards)@[k] == old(dashboards)@[k],
        ({
            let d = final(dashboards)@.last();
            &&& d.id == id
            &&& d.name == name
            &&& d.description == description
            &&& d.layout@.len() == 0
            &&& d.widgets@.len() == 0
            &&& d.created_at@ == now@
            &&& d.updated_at@ == now@
        }),
{
    let d = Dashboard {
        id,
        name,
        description,
        layout: Vec::new(),
        widgets: Vec::new(),
        created_at: now.to_owned(),
        updated_at: now.to_owned(),
    };
    dashboards.push(d);
}

/// Replace a dashboard's layout and widgets and stamp its update time.
/// Returns the index of the updated dashboard, or an error iff no dashboard
/// carries the id; on error nothing changes.
pub fn update_dashboard(
    dashboards: &mut Vec<Dashboard>,
    id: &str,
    layout: Vec<GridItem>,
    widgets: Vec<Widget>,
    now: &str,
) -> (r: Result<usize, String>)
    ensures
        r is Err <==> (forall|k: int|
            0 <= k < old(dashboards)@.len() ==> old(dashboards)@[k].id@ != id@),
        r matches Err(m) ==> final(dashboards)@ == old(dashboards)@ && m@ == "Dashboard not found"@,
        r matches Ok(i) ==> {
            &&& 0 <= i < old(dashboards)@.len()
            &&& old(dashboards)@[i as int].id@ == id@
            &&& forall|k: int| 0 <= k < i ==> old(dashboards)@[k].id@ != id@
            &&& final(dashboards)@.len() == old(dashboards)@.len()
            &&& forall|k: int|
                0 <= k < old(dashboards)@.len() && k != i ==> final(dashboards)@[k] == old(
                    dashboards,
                )@[k]
            &&& ({
                let orig = old(dashboards)@[i as int];
                let d = final(dashboards)@[i as int];
                &&& d.id == orig.id
                &&& d.name == orig.name
                &&& d.description == orig.description
                &&& d.layout == layout
                &&& d.widgets == widgets
                &&& d.created_at == orig.created_at
                &&& d.updated_at@ == now@
            })
        },
{
    match find_dashboard(dashboards, id) {
        None => Err("Dashboard not found".to_owned()),
        Some(i) => {
            let orig = dashboards.remove(i);
            let d = Dashboard {
                id: orig.id,
                name: orig.name,
                description: orig.description,
                layout,
                widgets,
                created_at: orig.created_at,
                updated_at: now.to_owned(),
            };
            dashboards.insert(i, d);
            Ok(i)
        },
    }
}

/// Delete the first dashboard with the given id. Returns an error iff no
/// dashboard carries the id; on error nothing changes.
pub fn delete_dashboard(dashboards: &mut Vec<Dashboard>, id: &str) -> (r: Result<(), String>)
    ensures
        r is Err <==> (forall|k: int|
            0 <= k < old(dashboards)@.len() ==> old(dashboards)@[k].id@ != id@),
        r matches Err(m) ==> final(dashboards)@ == old(dashboards)@ && m@ == "Dashboard not found"@,
        r is Ok ==> exists|i: int|
            {
                &&& 0 <= i < old(dashboards)@.len()
                &&& old(dashboards)@[i].id@ == id@
                &&& forall|k: int| 0 <= k < i ==> old(dashboards)@[k].id@ != id@
                &&& final(dashboards)@ == old(dashboards)@.remove(i)
            },
{
    match find_dashboard(dashboards, id) {
        None => Err("Dashboard not found".to_owned()),
        Some(i) => {
            let _removed = dashboards.remove(i);
            Ok(())
        },
    }
}

} // verus!
