//! The resolver strategies: turning a provider schema or region list into
//! the ordered download list the dispatcher runs. The sandboxed-module and
//! script strategies hand their raw output to the verified validation
//! here; the template substitution itself is the library's own logic.

use vstd::prelude::*;

use crate::errors::ResolveError;
use crate::text::{join_segment, join_url, replace_all, replace_str};
use crate::urls::{url_ok, url_parses};

verus! {

/// The opaque provider-defined configuration value carried through the
/// host without inspection.
#[verifier::external_type_specification]
#[verifier::external_body]
pub struct ExValue(serde_json::Value);

/// One resolved download target: the object name, the URL to fetch, and
/// whatever metadata the provider attached.
pub struct DownloadItem {
    pub name: String,
    pub url: String,
    pub metadata: Option<serde_json::Value>,
}

/// Which resolver strategy a run uses, selected by configuration.
#[derive(Clone, Copy, Debug)]
pub enum ResolverKind {
    /// A sandboxed plugin module maps the schema bytes to URLs.
    SandboxedModule,
    /// An embedded script evaluates the schema to named URLs.
    ScriptEvaluated,
    /// A declarative region tree is traversed directly.
    StaticRegionTree,
}

/// The structured schema of the template-based providers: a base URL, a
/// filename template with a `{region}` placeholder, and the region names.
pub struct PluginSchema {
    pub base_url: String,
    pub filename_template: String,
    pub regions: Vec<String>,
}

/// The file name the template yields for one region: every occurrence of
/// `{region}` replaced by the region's name.
pub open spec fn spec_template_filename(template: Seq<char>, region: Seq<char>) -> Seq<char> {
    replace_all(template, "{region}"@, region)
}

/// The URL the schema yields for one region.
pub open spec fn spec_template_url(schema: PluginSchema, region: Seq<char>) -> Seq<char> {
    join_segment(schema.base_url@, spec_template_filename(schema.filename_template@, region))
}

/// Turns a schema into its ordered URL list, one per declared region in
/// declaration order: the filename template with the region substituted,
/// joined onto the base URL stripped of trailing slashes.
pub fn parse_urls(schema: &PluginSchema) -> (r: Vec<String>)
    ensures
        r@.len() == schema.regions@.len(),
        forall|i: int|
            0 <= i < r@.len() ==> (#[trigger] r@[i])@ == spec_template_url(
                *schema,
                schema.regions@[i]@,
            ),
{
    proof {
        reveal_strlit("{region}");
    }
    let n = schema.regions.len();
    let mut out: Vec<String> = Vec::new();
    let mut k: usize = 0;
    while k < n
        invariant
            k <= n,
            n == schema.regions@.len(),
            out@.len() == k,
            forall|i: int|
                0 <= i < k ==> (#[trigger] out@[i])@ == spec_template_url(
                    *schema,
                    schema.regions@[i]@,
                ),
            "{region}"@.len() == 8,
        decreases n - k,
    {
        let filename = replace_str(
            schema.filename_template.as_str(),
            "{region}",
            schema.regions[k].as_str(),
        );
        let url = join_url(schema.base_url.as_str(), filename.as_str());
        out.push(url);
        k = k + 1;
    }
    out
}

/// A provider that derives one file per region name directly, without a
/// plugin: `{region}.osm.pbf` joined onto its base URL.
pub struct OsmProvider {
    regions: Vec<String>,
    base_url: String,
}

/// The file name the direct provider derives for a region.
pub open spec fn spec_osm_name(region: Seq<char>) -> Seq<char> {
    region + ".osm.pbf"@
}

/// The URL the direct provider derives for a region against a base.
pub open spec fn spec_osm_url(base: Seq<char>, region: Seq<char>) -> Seq<char> {
    join_segment(base, spec_osm_name(region))
}

impl OsmProvider {
    /// The configured region names.
    pub closed spec fn regions_spec(self) -> Seq<String> {
        self.regions@
    }

    /// The configured base URL.
    pub closed spec fn base_url_spec(self) -> Seq<char> {
        self.base_url@
    }

    pub fn new(regions: Vec<String>, base_url: String) -> (r: OsmProvider)
        ensures
            r.regions_spec() == regions@,
            r.base_url_spec() == base_url@,
    {
        OsmProvider { regions, base_url }
    }

    /// Derives the full download list, one descriptor per region in
    /// declaration order. Fails on the first region whose derived URL is
    /// malformed, and then resolves nothing — a provider is total over its
    /// declared schema or the batch is aborted.
    pub fn create_download_list(&self) -> (r: Result<Vec<DownloadItem>, ResolveError>)
        ensures
            match r {
                Ok(items) => {
                    &&& items@.len() == self.regions_spec().len()
                    &&& forall|i: int|
                        0 <= i < items@.len() ==> {
                            &&& (#[trigger] items@[i]).name@ == spec_osm_name(
                                self.regions_spec()[i]@,
                            )
                            &&& items@[i].url@ == spec_osm_url(
                                self.base_url_spec(),
                                self.regions_spec()[i]@,
                            )
                            &&& items@[i].metadata is None
                            &&& url_ok(items@[i].url@)
                        }
                },
                Err(e) => exists|i: int|
                    {
                        &&& 0 <= i < self.regions_spec().len()
                        &&& !url_ok(spec_osm_url(self.base_url_spec(), self.regions_spec()[i]@))
                        &&& (forall|j: int|
                            0 <= j < i ==> url_ok(
                                #[trigger] spec_osm_url(
                                    self.base_url_spec(),
                                    self.regions_spec()[j]@,
                                ),
                            ))
                        &&& e matches ResolveError::ParseUrl { url } && url@ == spec_osm_url(
                            self.base_url_spec(),
                            self.regions_spec()[i]@,
                        )
                    },
            },
    {
        let n = self.regions.len();
        let mut items: Vec<DownloadItem> = Vec::new();
        let mut k: usize = 0;
        while k < n
            invariant
                k <= n,
                n == self.regions@.len(),
                items@.len() == k,
                forall|i: int|
                    0 <= i < k ==> {
                        &&& (#[trigger] items@[i]).name@ == spec_osm_name(self.regions@[i]@)
                        &&& items@[i].url@ == spec_osm_url(self.base_url@, self.regions@[i]@)
                        &&& items@[i].metadata is None
                        &&& url_ok(items@[i].url@)
                    },
            decreases n - k,
        {
            let mut name = self.regions[k].clone();
            name.append(".osm.pbf");
            let url = join_url(self.base_url.as_str(), name.as_str());
            if !url_parses(url.as_str()) {
                proof {
                    let bad = k as int;
                    assert(url@ == spec_osm_url(self.base_url_spec(), self.regions_spec()[bad]@));
                    assert(!url_ok(spec_osm_url(self.base_url_spec(), self.regions_spec()[bad]@)));
                    assert forall|j: int| 0 <= j < bad implies url_ok(
                        #[trigger] spec_osm_url(self.base_url_spec(), self.regions_spec()[j]@),
                    ) by {
                        assert(items@[j].url@ == spec_osm_url(self.base_url@, self.regions@[j]@));
                        assert(url_ok(items@[j].url@));
                    };
                }
                return Err(ResolveError::ParseUrl { url });
            }
            items.push(DownloadItem { name, url, metadata: None });
            k = k + 1;
        }
        Ok(items)
    }
}

/// One named URL as the script strategy returns it, before validation.
pub struct UrlItem {
    pub name: String,
    pub url: String,
    pub metadata: Option<serde_json::Value>,
}

/// Whether every descriptor name occurs only once: the resolver invariant
/// that keeps items of one batch from overwriting each other's objects.
pub open spec fn names_unique(items: Seq<DownloadItem>) -> bool {
    forall|i: int, j: int|
        0 <= i < j < items.len() ==> (#[trigger] items[i]).name@ != (#[trigger] items[j]).name@
}

/// Accepts a raw named-URL list from a plugin or script as the batch's
/// download list, enforcing that names are unique. Fails with the first
/// name that repeats, and then resolves nothing.
pub fn validate_url_items(items: Vec<UrlItem>) -> (r: Result<Vec<DownloadItem>, ResolveError>)
    ensures
        match r {
            Ok(ds) => {
                &&& ds@.len() == items@.len()
                &&& forall|i: int|
                    0 <= i < ds@.len() ==> {
                        &&& (#[trigger] ds@[i]).name@ == items@[i].name@
                        &&& ds@[i].url@ == items@[i].url@
                        &&& ds@[i].metadata == items@[i].metadata
                    }
                &&& names_unique(ds@)
            },
            Err(e) => {
                &&& (exists|i: int, j: int|
                    0 <= i < j < items@.len() && (#[trigger] items@[i]).name@ == (
                    #[trigger] items@[j]).name@)
                &&& e is DuplicateName
            },
        },
{
    let n = items.len();
    let mut a: usize = 0;
    while a < n
        invariant
            a <= n,
            n == items@.len(),
            forall|i: int, j: int|
                0 <= i < j < items@.len() && i < a ==> (#[trigger] items@[i]).name@ != (
                #[trigger] items@[j]).name@,
        decreases n - a,
    {
        let mut b: usize = a + 1;
        while b < n
            invariant
                a < b <= n,
                n == items@.len(),
                forall|j: int|
                    a < j < b ==> (#[trigger] items@[j]).name@ != items@[a as int].name@,
            decreases n - b,
        {
            if items[a].name == items[b].name {
                let name = items[a].name.clone();
                return Err(ResolveError::DuplicateName { name });
            }
            b = b + 1;
        }
        a = a + 1;
    }
    let ghost all = items@;
    let mut rest = items;
    let mut ds: Vec<DownloadItem> = Vec::new();
    while rest.len() > 0
        invariant
            ds@.len() + rest@.len() == all.len(),
            rest@ == all.skip(ds@.len() as int),
            forall|i: int|
                0 <= i < ds@.len() ==> {
                    &&& (#[trigger] ds@[i]).name@ == all[i].name@
                    &&& ds@[i].url@ == all[i].url@
                    &&& ds@[i].metadata == all[i].metadata
                },
        decreases rest@.len(),
    {
        let ghost pre_rest = rest@;
        let item = rest.remove(0);
        proof {
            assert(rest@ =~= pre_rest.drop_first());
            assert(rest@ =~= all.skip(ds@.len() as int + 1));
            assert(item == all[ds@.len() as int]);
        }
        ds.push(DownloadItem { name: item.name, url: item.url, metadata: item.metadata });
    }
    proof {
        assert(ds@.len() == all.len());
        assert(names_unique(ds@));
    }
    Ok(ds)
}

} // verus!
