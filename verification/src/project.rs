//! The catalog records: what the remote side reports for a project, and the
//! strict subset of it that the mirror persists.

use vstd::prelude::*;

verus! {

/// The namespace sub-record embedded in every remote project.
#[derive(Debug, PartialEq, Eq)]
pub struct GitlabProjectNamespace {
    pub id: u32,
    pub name: String,
    pub path: String,
    pub kind: String,
    pub full_path: String,
    pub parent_id: Option<u32>,
    pub avatar_url: Option<String>,
    pub web_url: String,
}

/// One element of a page returned by the remote projects listing.
#[derive(Debug, PartialEq, Eq)]
pub struct GitlabProject {
    pub id: u32,
    pub description: Option<String>,
    pub name: String,
    pub name_with_namespace: String,
    pub path: String,
    pub path_with_namespace: String,
    pub created_at: String,
    pub default_branch: Option<String>,
    pub tag_list: Vec<String>,
    pub topics: Vec<String>,
    pub ssh_url_to_repo: String,
    pub http_url_to_repo: String,
    pub web_url: String,
    pub avatar_url: Option<String>,
    pub star_count: u32,
    pub last_activity_at: String,
    pub namespace: GitlabProjectNamespace,
}

/// The persisted projection of a remote project.  Tag list, topic list, star
/// count, default branch and namespace identity are intentionally dropped;
/// `parent_avatar_url` is the namespace's avatar, not the project's own.
#[derive(Debug, PartialEq, Eq)]
pub struct Project {
    pub id: u32,
    pub description: Option<String>,
    pub name: String,
    pub name_with_namespace: String,
    pub path: String,
    pub path_with_namespace: String,
    pub created_at: String,
    pub ssh_url_to_repo: String,
    pub http_url_to_repo: String,
    pub web_url: String,
    pub avatar_url: Option<String>,
    pub last_activity_at: String,
    pub parent_avatar_url: Option<String>,
}

/// The field table of the remote-to-mirror projection.
pub open spec fn mirror_of(g: GitlabProject) -> Project {
    Project {
        id: g.id,
        description: g.description,
        name: g.name,
        name_with_namespace: g.name_with_namespace,
        path: g.path,
        path_with_namespace: g.path_with_namespace,
        created_at: g.created_at,
        ssh_url_to_repo: g.ssh_url_to_repo,
        http_url_to_repo: g.http_url_to_repo,
        web_url: g.web_url,
        avatar_url: g.avatar_url,
        last_activity_at: g.last_activity_at,
        parent_avatar_url: g.namespace.avatar_url,
    }
}

impl From<GitlabProject> for Project {
    fn from(glproject: GitlabProject) -> (r: Project) {
        Project {
            id: glproject.id,
            description: glproject.description,
            name: glproject.name,
            name_with_namespace: glproject.name_with_namespace,
            path: glproject.path,
            path_with_namespace: glproject.path_with_namespace,
            created_at: glproject.created_at,
            ssh_url_to_repo: glproject.ssh_url_to_repo,
            http_url_to_repo: glproject.http_url_to_repo,
            web_url: glproject.web_url,
            avatar_url: glproject.avatar_url,
            last_activity_at: glproject.last_activity_at,
            parent_avatar_url: glproject.namespace.avatar_url,
        }
    }
}

impl vstd::std_specs::convert::FromSpecImpl<GitlabProject> for Project {
    open spec fn obeys_from_spec() -> bool {
        true
    }

    open spec fn from_spec(g: GitlabProject) -> Project {
        mirror_of(g)
    }
}

fn clone_opt_string(s: &Option<String>) -> (r: Option<String>)
    ensures
        r == *s,
{
    let r = s.clone();
    proof {
        if s is Some {
            assert(vstd::pervasive::cloned::<String>(s.unwrap(), r.unwrap()));
        }
    }
    r
}

impl Project {
    /// An identical copy of the record.
    pub fn duplicate(&self) -> (r: Project)
        ensures
            r == *self,
    {
        Project {
            id: self.id,
            description: clone_opt_string(&self.description),
            name: self.name.clone(),
            name_with_namespace: self.name_with_namespace.clone(),
            path: self.path.clone(),
            path_with_namespace: self.path_with_namespace.clone(),
            created_at: self.created_at.clone(),
            ssh_url_to_repo: self.ssh_url_to_repo.clone(),
            http_url_to_repo: self.http_url_to_repo.clone(),
            web_url: self.web_url.clone(),
            avatar_url: clone_opt_string(&self.avatar_url),
            last_activity_at: self.last_activity_at.clone(),
            parent_avatar_url: clone_opt_string(&self.parent_avatar_url),
        }
    }
}

/// Projects each remote record into its mirror record, keeping the order.
pub fn mirror_records(projects: Vec<GitlabProject>) -> (r: Vec<Project>)
    ensures
        r@ == projects@.map_values(|g: GitlabProject| mirror_of(g)),
{
    let ghost all = projects@;
    let mut rest = projects;
    let mut out: Vec<Project> = Vec::new();
    while rest.len() > 0
        invariant
            out@.len() + rest@.len() == all.len(),
            out@ == all.take(out@.len() as int).map_values(|g: GitlabProject| mirror_of(g)),
            rest@ == all.skip(out@.len() as int),
        decreases rest.len(),
    {
        let ghost k: int = out@.len() as int;
        let g = rest.remove(0);
        out.push(Project::from(g));
        proof {
            assert(rest@ =~= all.skip(k + 1));
            all.lemma_map_take_succ(|g: GitlabProject| mirror_of(g), k);
        }
    }
    proof {
        assert(all.take(out@.len() as int) =~= all);
    }
    out
}

} // verus!
