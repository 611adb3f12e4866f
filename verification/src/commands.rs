//! What the user interface asks of the plugin registry: snapshots of the
//! installed packages, the pages that enabled packages add, and switching a
//! package on or off.
use vstd::prelude::*;
use crate::manifest::{copy_manifest, copy_opt_string, manifest_same, PluginManifest, UiPageContribution};
use crate::registry::{ExternalDependencyState, InstalledPlugin, PluginRegistry};
use crate::text::{concat2, str_eq};

verus! {

#[derive(Debug, Clone)]
pub struct InstalledPluginSnapshot {
    pub manifest: PluginManifest,
    pub enabled: bool,
    /// Dependency id and its state, in ascending order of the id.
    pub external_dependencies: Vec<(String, ExternalDependencyState)>,
}

#[derive(Debug, Clone)]
pub struct PluginUiRouteSnapshot {
    pub plugin_id: String,
    pub plugin_version: String,
    pub page_id: String,
    pub route: String,
    pub package_path: String,
}

pub struct RouteView {
    pub plugin_id: Seq<char>,
    pub plugin_version: Seq<char>,
    pub page_id: Seq<char>,
    pub route: Seq<char>,
    pub package_path: Seq<char>,
}

impl View for PluginUiRouteSnapshot {
    type V = RouteView;

    open spec fn view(&self) -> RouteView {
        RouteView {
            plugin_id: self.plugin_id@,
            plugin_version: self.plugin_version@,
            page_id: self.page_id@,
            route: self.route@,
            package_path: self.package_path@,
        }
    }
}

/// A snapshot entry shows the package as installed.
pub open spec fn snapshot_of(s: InstalledPluginSnapshot, p: InstalledPlugin) -> bool {
    &&& manifest_same(s.manifest, p.manifest)
    &&& s.enabled == p.enabled
    &&& s.external_dependencies@ == p.external_dependencies@
}

pub open spec fn snapshot_matches(s: Seq<InstalledPluginSnapshot>, ps: Seq<InstalledPlugin>) -> bool {
    &&& s.len() == ps.len()
    &&& forall|i: int| 0 <= i < ps.len() ==> snapshot_of(#[trigger] s[i], ps[i])
}

fn copy_dependency_states(v: &Vec<(String, ExternalDependencyState)>) -> (c: Vec<(String, ExternalDependencyState)>)
    ensures
        c@ == v@,
{
    let mut c: Vec<(String, ExternalDependencyState)> = Vec::new();
    for i in 0..v.len()
        invariant
            c@ == v@.take(i as int),
    {
        let (id, state) = (&v[i].0, &v[i].1);
        let copy = ExternalDependencyState {
            status: state.status,
            path: copy_opt_string(&state.path),
            reason: copy_opt_string(&state.reason),
        };
        c.push((id.clone(), copy));
        assert(v@.take(i + 1) =~= v@.take(i as int).push(v@[i as int]));
    }
    assert(v@.take(v@.len() as int) =~= v@);
    c
}

/// Every installed package, in the registry's order.
pub fn snapshot(registry: &PluginRegistry) -> (out: Vec<InstalledPluginSnapshot>)
    ensures
        snapshot_matches(out@, registry.installed_view()),
{
    let installed = registry.installed();
    let mut out: Vec<InstalledPluginSnapshot> = Vec::new();
    for i in 0..installed.len()
        invariant
            installed@ == registry.installed_view(),
            out@.len() == i,
            forall|k: int| 0 <= k < i ==> snapshot_of(#[trigger] out@[k], installed@[k]),
    {
        let plugin = &installed[i];
        out.push(InstalledPluginSnapshot {
            manifest: copy_manifest(&plugin.manifest),
            enabled: plugin.enabled,
            external_dependencies: copy_dependency_states(&plugin.external_dependencies),
        });
    }
    out
}

/// The pages of one package, as routes.
pub open spec fn page_routes(p: InstalledPlugin) -> Seq<RouteView> {
    p.manifest.contributions.ui_pages@.map_values(|page: UiPageContribution| RouteView {
        plugin_id: p.manifest.id@,
        plugin_version: p.manifest.version@,
        page_id: page.id@,
        route: page.route@,
        package_path: page.path@,
    })
}

/// The pages of the enabled packages among `ps[..n]`, package by package.
pub open spec fn routes_of(ps: Seq<InstalledPlugin>, n: int) -> Seq<RouteView>
    decreases n,
{
    if n <= 0 {
        Seq::empty()
    } else {
        routes_of(ps, n - 1) + if ps[n - 1].enabled { page_routes(ps[n - 1]) } else { Seq::empty() }
    }
}

/// The pages that the enabled packages add to the interface, in the registry's order.
pub fn ui_routes(registry: &PluginRegistry) -> (out: Vec<PluginUiRouteSnapshot>)
    ensures
        out@.map_values(|r: PluginUiRouteSnapshot| r@) == routes_of(registry.installed_view(), registry.installed_view().len() as int),
{
    let installed = registry.installed();
    let ghost ps = registry.installed_view();
    let mut out: Vec<PluginUiRouteSnapshot> = Vec::new();
    let mut i: usize = 0;
    while i < installed.len()
        invariant
            installed@ == ps,
            i <= ps.len(),
            out@.map_values(|r: PluginUiRouteSnapshot| r@) == routes_of(ps, i as int),
        decreases installed.len() - i,
    {
        let plugin = &installed[i];
        let ghost before = out@.map_values(|r: PluginUiRouteSnapshot| r@);
        if plugin.enabled {
            let pages = &plugin.manifest.contributions.ui_pages;
            let mut j: usize = 0;
            while j < pages.len()
                invariant
                    *plugin == ps[i as int],
                    *pages == plugin.manifest.contributions.ui_pages,
                    j <= pages@.len(),
                    out@.map_values(|r: PluginUiRouteSnapshot| r@) == before + page_routes(*plugin).take(j as int),
                decreases pages.len() - j,
            {
                let page = &pages[j];
                let ghost mid = out@.map_values(|r: PluginUiRouteSnapshot| r@);
                out.push(PluginUiRouteSnapshot {
                    plugin_id: plugin.manifest.id.clone(),
                    plugin_version: plugin.manifest.version.clone(),
                    page_id: page.id.clone(),
                    route: page.route.clone(),
                    package_path: page.path.clone(),
                });
                proof {
                    assert(out@.map_values(|r: PluginUiRouteSnapshot| r@) =~= mid.push(page_routes(*plugin)[j as int]));
                    assert(page_routes(*plugin).take(j + 1) =~= page_routes(*plugin).take(j as int).push(page_routes(*plugin)[j as int]));
                }
                j += 1;
            }
            assert(page_routes(*plugin).take(j as int) =~= page_routes(*plugin));
        } else {
            assert(before + Seq::<RouteView>::empty() =~= before);
        }
        i += 1;
    }
    out
}

/// A route is repeated at position `i` and at no earlier one.
pub open spec fn is_first_repeat(routes: Seq<RouteView>, i: int) -> bool {
    &&& 0 <= i < routes.len()
    &&& exists|j: int| 0 <= j < i && #[trigger] routes[j].route == routes[i].route
    &&& forall|k: int, j: int| 0 <= j < k < i ==> #[trigger] routes[j].route != #[trigger] routes[k].route
}

/// The routes of the enabled packages, refused when two pages claim one route.
pub fn plugin_ui_routes(registry: &PluginRegistry) -> (r: Result<Vec<PluginUiRouteSnapshot>, String>)
    ensures
        ({
            let routes = routes_of(registry.installed_view(), registry.installed_view().len() as int);
            match r {
                Ok(v) => v@.map_values(|x: PluginUiRouteSnapshot| x@) == routes
                    && forall|i: int, j: int| 0 <= j < i < routes.len() ==> #[trigger] routes[j].route != #[trigger] routes[i].route,
                Err(msg) => exists|i: int| is_first_repeat(routes, i)
                    && msg@ == "duplicate enabled plugin UI route: "@ + routes[i].route,
            }
        }),
{
    let routes = ui_routes(registry);
    let ghost views = routes@.map_values(|x: PluginUiRouteSnapshot| x@);
    let mut i: usize = 0;
    while i < routes.len()
        invariant
            views == routes@.map_values(|x: PluginUiRouteSnapshot| x@),
            views == routes_of(registry.installed_view(), registry.installed_view().len() as int),
            i <= routes@.len(),
            forall|k: int, j: int| 0 <= j < k < i ==> #[trigger] views[j].route != #[trigger] views[k].route,
        decreases routes.len() - i,
    {
        let mut j: usize = 0;
        while j < i
            invariant
                views == routes@.map_values(|x: PluginUiRouteSnapshot| x@),
                views == routes_of(registry.installed_view(), registry.installed_view().len() as int),
                j <= i < routes@.len(),
                forall|k: int, m: int| 0 <= m < k < i ==> #[trigger] views[m].route != #[trigger] views[k].route,
                forall|m: int| 0 <= m < j ==> #[trigger] views[m].route != views[i as int].route,
            decreases i - j,
        {
            if str_eq(routes[j].route.as_str(), routes[i].route.as_str()) {
                let msg = concat2("duplicate enabled plugin UI route: ", routes[i].route.as_str());
                assert(views[j as int].route == views[i as int].route);
                assert(is_first_repeat(views, i as int));
                assert(msg@ == "duplicate enabled plugin UI route: "@ + views[i as int].route);
                return Err(msg);
            }
            j += 1;
        }
        i += 1;
    }
    Ok(routes)
}

/// Every installed package, as the interface lists them.
pub fn plugin_registry_snapshot(registry: &PluginRegistry) -> (r: Result<Vec<InstalledPluginSnapshot>, String>)
    ensures
        r matches Ok(v) && snapshot_matches(v@, registry.installed_view()),
{
    Ok(snapshot(registry))
}

/// Switches the latest package of plugin `id` on or off and lists the packages
/// again; a plugin that is not installed is reported by message.
pub fn set_plugin_enabled(registry: &mut PluginRegistry, id: &str, enabled: bool) -> (r: Result<Vec<InstalledPluginSnapshot>, String>)
    ensures
        final(registry).root_view() == old(registry).root_view(),
        match crate::registry::latest_index(old(registry).installed_view(), id@, old(registry).installed_view().len() as int) {
            None => r matches Err(msg) && msg@ == "plugin not found: "@ + id@
                && final(registry).installed_view() == old(registry).installed_view()
                && final(registry).state_view() == old(registry).state_view(),
            Some(i) => {
                let key = crate::registry::installed_key(old(registry).installed_view()[i]);
                &&& r matches Ok(v) && snapshot_matches(v@, final(registry).installed_view())
                &&& crate::registry::state_entries(final(registry).state_view())
                    == crate::registry::with_enabled(crate::registry::state_entries(old(registry).state_view()), key, enabled)
                &&& final(registry).installed_view() == crate::registry::installed_with_enabled(old(registry).installed_view(), key, enabled)
            },
        },
{
    match registry.set_enabled(id, enabled) {
        Err(e) => Err(e.message()),
        Ok(()) => Ok(snapshot(registry)),
    }
}

} // verus!
