//! Where things are: remote addresses, local files, cache entries.

use vstd::prelude::*;

verus! {

/// The regions of one group, as the configuration lists them.
#[derive(Debug, Clone)]
pub struct RegionGroup {
    pub name: String,
    pub regions: Vec<String>,
}

/// What the pipeline is told from outside: the server, the suffix of the
/// extract files, and the regions by group.
#[derive(Debug, Clone)]
pub struct Config {
    pub server_url: String,
    pub suffix: String,
    pub regions: Vec<RegionGroup>,
}

/// The address of the extract of `region`:
/// `{server_url}/{area}/{region}{suffix}.osm.pbf`.
pub open spec fn source_url_of(
    server_url: Seq<char>,
    area: Seq<char>,
    region: Seq<char>,
    suffix: Seq<char>,
) -> Seq<char> {
    server_url + "/"@ + area + "/"@ + region + suffix + ".osm.pbf"@
}

/// The address of the checksum manifest of an extract: that of the extract
/// with `.md5` after it.
pub open spec fn checksum_url_of(source_url: Seq<char>) -> Seq<char> {
    source_url + ".md5"@
}

/// The local file of the extract of `region`:
/// `./assets/{region}{suffix}.osm.pbf`.
pub open spec fn local_path_of(region: Seq<char>, suffix: Seq<char>) -> Seq<char> {
    "./assets/"@ + region + suffix + ".osm.pbf"@
}

/// The cache entry of `region`: `./cache/{region}.bin`.
pub open spec fn cache_path_of(region: Seq<char>) -> Seq<char> {
    "./cache/"@ + region + ".bin"@
}

/// The position of the first group named `name`, or the number of groups
/// where there is none.
pub open spec fn group_index(groups: Seq<RegionGroup>, name: Seq<char>) -> int
    decreases groups.len(),
{
    if groups.len() == 0 {
        0
    } else if groups[0].name@ == name {
        0
    } else {
        1 + group_index(groups.drop_first(), name)
    }
}

/// The first position that holds a group of the name is `group_index`.
proof fn lemma_group_index_is(groups: Seq<RegionGroup>, name: Seq<char>, at: int)
    requires
        0 <= at <= groups.len(),
        forall|k: int| 0 <= k < at ==> (#[trigger] groups[k]).name@ != name,
        at < groups.len() ==> groups[at].name@ == name,
    ensures
        group_index(groups, name) == at,
    decreases groups.len(),
{
    if groups.len() > 0 && groups[0].name@ != name {
        let rest = groups.drop_first();
        assert forall|k: int| 0 <= k < at - 1 implies (#[trigger] rest[k]).name@ != name by {
            assert(rest[k] == groups[k + 1]);
        }
        if at - 1 < rest.len() {
            assert(rest[at - 1] == groups[at]);
        }
        lemma_group_index_is(rest, name, at - 1);
    } else if groups.len() > 0 {
        if at > 0 {
            assert(groups[0].name@ != name);
        }
    }
}

impl Config {
    /// The address of the extract of `region` in `area`.
    pub fn source_url(&self, area: &str, region: &str) -> (url: String)
        ensures
            url@ == source_url_of(self.server_url@, area@, region@, self.suffix@),
    {
        self.server_url.clone().concat("/").concat(area).concat("/").concat(region).concat(
            self.suffix.as_str(),
        ).concat(".osm.pbf")
    }

    /// The address of the checksum manifest of the extract of `region` in
    /// `area`.
    pub fn checksum_url(&self, area: &str, region: &str) -> (url: String)
        ensures
            url@ == checksum_url_of(
                source_url_of(self.server_url@, area@, region@, self.suffix@),
            ),
    {
        self.source_url(area, region).concat(".md5")
    }

    /// The local file of the extract of `region`.
    pub fn local_path(&self, region: &str) -> (path: String)
        ensures
            path@ == local_path_of(region@, self.suffix@),
    {
        String::from_str("./assets/").concat(region).concat(self.suffix.as_str()).concat(
            ".osm.pbf",
        )
    }

    /// The regions of the first group named `group`, where there is one.
    pub fn group(&self, group: &String) -> (r: Option<&Vec<String>>)
        ensures
            r is Some <==> group_index(self.regions@, group@) < self.regions.len(),
            r matches Some(regions) ==> *regions == self.regions@[group_index(
                self.regions@,
                group@,
            )].regions,
    {
        let n = self.regions.len();
        let mut i: usize = 0;
        while i < n
            invariant
                n == self.regions.len(),
                i <= n,
                forall|k: int| 0 <= k < i ==> (#[trigger] self.regions@[k]).name@ != group@,
            decreases n - i,
        {
            if self.regions[i].name == *group {
                proof {
                    lemma_group_index_is(self.regions@, group@, i as int);
                }
                return Some(&self.regions[i].regions);
            }
            i = i + 1;
        }
        proof {
            lemma_group_index_is(self.regions@, group@, n as int);
        }
        None
    }
}

/// The cache entry of `region`.
pub fn cache_path(region: &str) -> (path: String)
    ensures
        path@ == cache_path_of(region@),
{
    String::from_str("./cache/").concat(region).concat(".bin")
}

} // verus!
