//! The services list an `app-main` publishes: for every service that a
//! main app of the bundle depends on, the entry point of the app that
//! provides it, so that the single-page app knows where to call.

use vstd::prelude::*;
use crate::text::str_eq;

verus! {

/// What the services list needs of an app in the bundle.
pub struct AppSummary {
    /// `app-main`, `app-service`, ...
    pub app_type: String,
    pub app_id: String,
    pub app_name: String,
    pub entry_point: Option<String>,
    /// The services the app depends on: each one's name and the id of the
    /// app that provides it.
    pub services: Vec<(String, String)>,
}

/// Index of the first of the first `n` apps with this id, or -1.
pub open spec fn first_app_with_id(apps: Seq<AppSummary>, id: Seq<char>, n: int) -> int
    decreases n,
{
    if n <= 0 {
        -1
    } else {
        let f = first_app_with_id(apps, id, n - 1);
        if f >= 0 {
            f
        } else if apps[n - 1].app_id@ == id {
            n - 1
        } else {
            -1
        }
    }
}

/// The entry point under which an app is served: its declared entry
/// point, else its name.
pub open spec fn served_as(app: AppSummary) -> Seq<char> {
    match app.entry_point {
        Some(e) => e@,
        None => app.app_name@,
    }
}

/// The listing of the first `n` service dependencies: each one whose
/// providing app is in the bundle, with that app's entry point.
pub open spec fn dependency_listing(apps: Seq<AppSummary>, deps: Seq<(String, String)>, n: int) -> Seq<
    (Seq<char>, Seq<char>),
>
    decreases n,
{
    if n <= 0 {
        Seq::empty()
    } else {
        let t = first_app_with_id(apps, deps[n - 1].1@, apps.len() as int);
        let prior = dependency_listing(apps, deps, n - 1);
        if t >= 0 {
            prior.push((deps[n - 1].0@, served_as(apps[t])))
        } else {
            prior
        }
    }
}

/// The services listed for the first `n` apps: those of every `app-main`,
/// in order.
pub open spec fn services_listing(apps: Seq<AppSummary>, n: int) -> Seq<(Seq<char>, Seq<char>)>
    decreases n,
{
    if n <= 0 {
        Seq::empty()
    } else {
        let prior = services_listing(apps, n - 1);
        let app = apps[n - 1];
        if app.app_type@ == "app-main"@ {
            prior + dependency_listing(apps, app.services@, app.services@.len() as int)
        } else {
            prior
        }
    }
}

/// The views of listed pairs.
pub open spec fn pairs_view(v: Seq<(String, String)>) -> Seq<(Seq<char>, Seq<char>)> {
    Seq::new(v.len(), |i: int| (v[i].0@, v[i].1@))
}

fn app_with_id(apps: &Vec<AppSummary>, id: &str) -> (r: Option<usize>)
    ensures
        match r {
            Some(i) => i < apps@.len() && first_app_with_id(apps@, id@, apps@.len() as int) == i,
            None => first_app_with_id(apps@, id@, apps@.len() as int) == -1,
        },
{
    let mut i: usize = 0;
    while i < apps.len()
        invariant
            i <= apps@.len(),
            first_app_with_id(apps@, id@, i as int) == -1,
        decreases apps@.len() - i,
    {
        if str_eq(apps[i].app_id.as_str(), id) {
            proof {
                lemma_first_app_stays(apps@, id@, i + 1, apps@.len() as int);
            }
            return Some(i);
        }
        i = i + 1;
    }
    None
}

proof fn lemma_first_app_stays(apps: Seq<AppSummary>, id: Seq<char>, k: int, n: int)
    requires
        0 <= k <= n <= apps.len(),
        first_app_with_id(apps, id, k) >= 0,
    ensures
        first_app_with_id(apps, id, n) == first_app_with_id(apps, id, k),
    decreases n - k,
{
    if n > k {
        lemma_first_app_stays(apps, id, k, n - 1);
    }
}

/// The services a bundle's main apps publish: each one's name and the
/// entry point of the app that provides it, apps and dependencies in
/// order; a dependency on an app missing from the bundle is left out.
pub fn discovered_services(apps: &Vec<AppSummary>) -> (r: Vec<(String, String)>)
    ensures
        pairs_view(r@) == services_listing(apps@, apps@.len() as int),
{
    let mut out: Vec<(String, String)> = Vec::new();
    let mut i: usize = 0;
    while i < apps.len()
        invariant
            i <= apps@.len(),
            pairs_view(out@) == services_listing(apps@, i as int),
        decreases apps@.len() - i,
    {
        let app = &apps[i];
        if str_eq(app.app_type.as_str(), "app-main") {
            let ghost base = out@;
            let mut j: usize = 0;
            while j < app.services.len()
                invariant
                    i < apps@.len(),
                    *app == apps@[i as int],
                    j <= app.services@.len(),
                    pairs_view(out@) == pairs_view(base) + dependency_listing(
                        apps@,
                        app.services@,
                        j as int,
                    ),
                decreases app.services@.len() - j,
            {
                let dep = &app.services[j];
                let found = app_with_id(apps, dep.1.as_str());
                match found {
                    Some(t) => {
                        let target = &apps[t];
                        let served = match &target.entry_point {
                            Some(e) => e.clone(),
                            None => target.app_name.clone(),
                        };
                        let ghost prev = out@;
                        out.push((dep.0.clone(), served));
                        proof {
                            assert(pairs_view(out@) =~= pairs_view(prev).push((dep.0@, served_as(apps@[t as int]))));
                        }
                    },
                    None => {},
                }
                proof {
                    assert(pairs_view(out@) =~= pairs_view(base) + dependency_listing(
                        apps@,
                        app.services@,
                        j + 1,
                    ));
                }
                j = j + 1;
            }
        }
        i = i + 1;
    }
    out
}

} // verus!
