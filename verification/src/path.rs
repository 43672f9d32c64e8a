//! Resource locations addressable on the server, and their rendering to
//! URL path strings.
//!
//! Every variant of [`Path`] renders to one literal template; rendering
//! is total and cannot fail. The only recursive variant is
//! [`Path::InFolder`], which renders as `/job/{folder}` followed by the
//! rendering of the inner path.

use vstd::prelude::*;
use vstd::string::*;

use crate::percent::{percent_encode, percent_encoded};
use crate::text::{dec_str, push_dec_u32};

verus! {

/// Name of an object: either raw (percent-encoded on render) or already
/// URL-encoded (rendered verbatim).
#[derive(Debug, PartialEq)]
pub enum Name {
    /// Name of an object
    Name(String),
    /// URL Encoded name of an object
    UrlEncodedName(String),
}

/// The mathematical model of a [`Name`].
pub enum NameView {
    /// Model of a raw name
    Name(Seq<char>),
    /// Model of an already URL-encoded name
    UrlEncodedName(Seq<char>),
}

impl View for Name {
    type V = NameView;

    open spec fn view(&self) -> NameView {
        match self {
            Name::Name(s) => NameView::Name(s@),
            Name::UrlEncodedName(s) => NameView::UrlEncodedName(s@),
        }
    }
}

impl NameView {
    /// How a name appears inside a rendered path.
    pub open spec fn rendered(self) -> Seq<char> {
        match self {
            NameView::Name(s) => percent_encoded(s),
            NameView::UrlEncodedName(s) => s,
        }
    }
}

impl Clone for Name {
    fn clone(&self) -> (r: Self)
        ensures
            r == self,
    {
        match self {
            Name::Name(s) => Name::Name(s.clone()),
            Name::UrlEncodedName(s) => Name::UrlEncodedName(s.clone()),
        }
    }
}

impl Name {
    /// Renders the name as a path segment: raw names are
    /// percent-encoded, pre-encoded names pass through unchanged.
    pub fn render(&self) -> (r: String)
        ensures
            r@ == self@.rendered(),
    {
        match self {
            Name::Name(s) => percent_encode(s.as_str()),
            Name::UrlEncodedName(s) => s.clone(),
        }
    }
}

/// An identifier for a build: a literal ordinal or one of the symbolic
/// aliases the server resolves itself.
#[derive(Debug, PartialEq, Eq, Clone, Copy)]
pub enum BuildNumber {
    /// A literal build number
    Number(u32),
    /// The most recent build
    LastBuild,
    /// The most recent successful build
    LastSuccessfulBuild,
    /// The most recent stable build
    LastStableBuild,
    /// The most recent completed build
    LastCompletedBuild,
    /// The most recent failed build
    LastFailedBuild,
}

impl BuildNumber {
    /// How a build number appears inside a rendered path: the ordinal's
    /// decimal text, or the server-recognized keyword of an alias.
    pub open spec fn rendered(self) -> Seq<char> {
        match self {
            BuildNumber::Number(n) => dec_str(n as nat),
            BuildNumber::LastBuild => "lastBuild"@,
            BuildNumber::LastSuccessfulBuild => "lastSuccessfulBuild"@,
            BuildNumber::LastStableBuild => "lastStableBuild"@,
            BuildNumber::LastCompletedBuild => "lastCompletedBuild"@,
            BuildNumber::LastFailedBuild => "lastFailedBuild"@,
        }
    }

    /// Renders the build number as a path segment.
    pub fn render(&self) -> (r: String)
        ensures
            r@ == self.rendered(),
    {
        match self {
            BuildNumber::Number(n) => {
                let mut out = String::new();
                push_dec_u32(&mut out, *n);
                proof {
                    assert(out@ =~= self.rendered());
                }
                out
            },
            BuildNumber::LastBuild => String::from_str("lastBuild"),
            BuildNumber::LastSuccessfulBuild => String::from_str("lastSuccessfulBuild"),
            BuildNumber::LastStableBuild => String::from_str("lastStableBuild"),
            BuildNumber::LastCompletedBuild => String::from_str("lastCompletedBuild"),
            BuildNumber::LastFailedBuild => String::from_str("lastFailedBuild"),
        }
    }
}

/// A resource location on the server. Each variant maps to one URL path
/// template; `InFolder` nests another location under a folder.
#[derive(Debug, PartialEq)]
#[allow(inconsistent_fields)]
pub enum Path {
    /// Home page
    Home,
    /// A view of jobs
    View {
        /// Name of the view
        name: Name,
    },
    /// Adding a job to a view
    AddJobToView {
        /// Name of the job
        job_name: Name,
        /// Name of the view
        view_name: Name,
    },
    /// Removing a job from a view
    RemoveJobFromView {
        /// Name of the job
        job_name: Name,
        /// Name of the view
        view_name: Name,
    },
    /// A job, optionally one of its configurations
    Job {
        /// Name of the job
        name: Name,
        /// Name of the configuration
        configuration: Option<Name>,
    },
    /// Triggering a build of a job
    BuildJob {
        /// Name of the job
        name: Name,
    },
    /// Triggering a parameterized build of a job
    BuildJobWithParameters {
        /// Name of the job
        name: Name,
    },
    /// Polling the SCM of a job
    PollSCMJob {
        /// Name of the job
        name: Name,
    },
    /// Enabling a job
    JobEnable {
        /// Name of the job
        name: Name,
    },
    /// Disabling a job
    JobDisable {
        /// Name of the job
        name: Name,
    },
    /// A build of a job
    Build {
        /// Name of the job
        job_name: Name,
        /// Number of the build
        number: BuildNumber,
        /// Name of the configuration
        configuration: Option<Name>,
    },
    /// The console text of a build
    ConsoleText {
        /// Name of the job
        job_name: Name,
        /// Number of the build
        number: BuildNumber,
        /// Name of the configuration
        configuration: Option<Name>,
        /// Name of the enclosing folder
        folder_name: Option<Name>,
    },
    /// The configuration file of a job
    ConfigXML {
        /// Name of the job
        job_name: Name,
        /// Name of the enclosing folder
        folder_name: Option<Name>,
    },
    /// The build queue
    Queue,
    /// An item of the build queue
    QueueItem {
        /// Identifier of the queue item
        id: i32,
    },
    /// The archived artifacts of a maven build
    MavenArtifactRecord {
        /// Name of the job
        job_name: Name,
        /// Number of the build
        number: BuildNumber,
        /// Name of the configuration
        configuration: Option<Name>,
    },
    /// A location nested under a folder
    InFolder {
        /// Name of the folder
        folder_name: Name,
        /// The location inside the folder
        path: Box<Path>,
    },
    /// The list of computers
    Computers,
    /// A computer
    Computer {
        /// Name of the computer
        name: Name,
    },
    /// A verbatim path, carrying no structure
    Raw {
        /// The path text
        path: String,
    },
    /// The CSRF crumb issuer
    CrumbIssuer,
}

/// The mathematical model of a [`Path`].
#[allow(inconsistent_fields)]
pub enum PathView {
    /// Model of `Path::Home`
    Home,
    /// Model of `Path::View`
    View { name: NameView },
    /// Model of `Path::AddJobToView`
    AddJobToView { job_name: NameView, view_name: NameView },
    /// Model of `Path::RemoveJobFromView`
    RemoveJobFromView { job_name: NameView, view_name: NameView },
    /// Model of `Path::Job`
    Job { name: NameView, configuration: Option<NameView> },
    /// Model of `Path::BuildJob`
    BuildJob { name: NameView },
    /// Model of `Path::BuildJobWithParameters`
    BuildJobWithParameters { name: NameView },
    /// Model of `Path::PollSCMJob`
    PollSCMJob { name: NameView },
    /// Model of `Path::JobEnable`
    JobEnable { name: NameView },
    /// Model of `Path::JobDisable`
    JobDisable { name: NameView },
    /// Model of `Path::Build`
    Build { job_name: NameView, number: BuildNumber, configuration: Option<NameView> },
    /// Model of `Path::ConsoleText`
    ConsoleText {
        job_name: NameView,
        number: BuildNumber,
        configuration: Option<NameView>,
        folder_name: Option<NameView>,
    },
    /// Model of `Path::ConfigXML`
    ConfigXML { job_name: NameView, folder_name: Option<NameView> },
    /// Model of `Path::Queue`
    Queue,
    /// Model of `Path::QueueItem`
    QueueItem { id: i32 },
    /// Model of `Path::MavenArtifactRecord`
    MavenArtifactRecord { job_name: NameView, number: BuildNumber, configuration: Option<NameView> },
    /// Model of `Path::InFolder`
    InFolder { folder_name: NameView, path: Box<PathView> },
    /// Model of `Path::Computers`
    Computers,
    /// Model of `Path::Computer`
    Computer { name: NameView },
    /// Model of `Path::Raw`
    Raw { path: Seq<char> },
    /// Model of `Path::CrumbIssuer`
    CrumbIssuer,
}

/// The model of an optional name.
pub open spec fn opt_name_view(o: &Option<Name>) -> Option<NameView> {
    match o {
        Option::Some(n) => Option::Some(n@),
        Option::None => Option::None,
    }
}

/// The model of a path value.
pub open spec fn path_view(p: &Path) -> PathView
    decreases p,
{
    match p {
        Path::Home => PathView::Home,
        Path::View { name } => PathView::View { name: name@ },
        Path::AddJobToView { job_name, view_name } => PathView::AddJobToView {
            job_name: job_name@,
            view_name: view_name@,
        },
        Path::RemoveJobFromView { job_name, view_name } => PathView::RemoveJobFromView {
            job_name: job_name@,
            view_name: view_name@,
        },
        Path::Job { name, configuration } => PathView::Job {
            name: name@,
            configuration: opt_name_view(configuration),
        },
        Path::BuildJob { name } => PathView::BuildJob { name: name@ },
        Path::BuildJobWithParameters { name } => PathView::BuildJobWithParameters { name: name@ },
        Path::PollSCMJob { name } => PathView::PollSCMJob { name: name@ },
        Path::JobEnable { name } => PathView::JobEnable { name: name@ },
        Path::JobDisable { name } => PathView::JobDisable { name: name@ },
        Path::Build { job_name, number, configuration } => PathView::Build {
            job_name: job_name@,
            number: *number,
            configuration: opt_name_view(configuration),
        },
        Path::ConsoleText { job_name, number, configuration, folder_name } => PathView::ConsoleText {
            job_name: job_name@,
            number: *number,
            configuration: opt_name_view(configuration),
            folder_name: opt_name_view(folder_name),
        },
        Path::ConfigXML { job_name, folder_name } => PathView::ConfigXML {
            job_name: job_name@,
            folder_name: opt_name_view(folder_name),
        },
        Path::Queue => PathView::Queue,
        Path::QueueItem { id } => PathView::QueueItem { id: *id },
        Path::MavenArtifactRecord { job_name, number, configuration } => PathView::MavenArtifactRecord {
            job_name: job_name@,
            number: *number,
            configuration: opt_name_view(configuration),
        },
        Path::InFolder { folder_name, path } => PathView::InFolder {
            folder_name: folder_name@,
            path: Box::new(path_view(path)),
        },
        Path::Computers => PathView::Computers,
        Path::Computer { name } => PathView::Computer { name: name@ },
        Path::Raw { path } => PathView::Raw { path: path@ },
        Path::CrumbIssuer => PathView::CrumbIssuer,
    }
}

impl View for Path {
    type V = PathView;

    open spec fn view(&self) -> PathView {
        path_view(self)
    }
}

impl PathView {
    /// The canonical path string of a location: one literal template per
    /// variant. `InFolder` prefixes `/job/{folder}` to the rendering of
    /// the inner location.
    pub open spec fn rendered(self) -> Seq<char>
        decreases self,
    {
        match self {
            PathView::Home => Seq::empty(),
            PathView::View { name } => "/view/"@ + name.rendered(),
            PathView::AddJobToView { job_name, view_name } => "/view/"@ + view_name.rendered()
                + "/addJobToView?name="@ + job_name.rendered(),
            PathView::RemoveJobFromView { job_name, view_name } => "/view/"@ + view_name.rendered()
                + "/removeJobFromView?name="@ + job_name.rendered(),
            PathView::Job { name, configuration } => match configuration {
                Option::Some(c) => "/job/"@ + name.rendered() + "/"@ + c.rendered(),
                Option::None => "/job/"@ + name.rendered(),
            },
            PathView::BuildJob { name } => "/job/"@ + name.rendered() + "/build"@,
            PathView::BuildJobWithParameters { name } => "/job/"@ + name.rendered()
                + "/buildWithParameters"@,
            PathView::PollSCMJob { name } => "/job/"@ + name.rendered() + "/polling"@,
            PathView::JobEnable { name } => "/job/"@ + name.rendered() + "/enable"@,
            PathView::JobDisable { name } => "/job/"@ + name.rendered() + "/disable"@,
            PathView::Build { job_name, number, configuration } => match configuration {
                Option::Some(c) => "/job/"@ + job_name.rendered() + "/"@ + c.rendered() + "/"@
                    + number.rendered(),
                Option::None => "/job/"@ + job_name.rendered() + "/"@ + number.rendered(),
            },
            PathView::ConsoleText { job_name, number, configuration, folder_name } => {
                let prefix = match folder_name {
                    Option::Some(f) => "/job/"@ + f.rendered() + "/job/"@ + job_name.rendered(),
                    Option::None => "/job/"@ + job_name.rendered(),
                };
                let middle = match configuration {
                    Option::Some(c) => "/"@ + c.rendered(),
                    Option::None => Seq::empty(),
                };
                prefix + middle + "/"@ + number.rendered() + "/consoleText"@
            },
            PathView::ConfigXML { job_name, folder_name } => match folder_name {
                Option::Some(f) => "/job/"@ + f.rendered() + "/job/"@ + job_name.rendered()
                    + "/config.xml"@,
                Option::None => "/job/"@ + job_name.rendered() + "/config.xml"@,
            },
            PathView::Queue => "/queue"@,
            PathView::QueueItem { id } => "/queue/item/"@ + (if id < 0 {
                seq!['-'] + dec_str((-(id as int)) as nat)
            } else {
                dec_str(id as nat)
            }),
            PathView::MavenArtifactRecord { job_name, number, configuration } => match configuration {
                Option::Some(c) => "/job/"@ + job_name.rendered() + "/"@ + c.rendered() + "/"@
                    + number.rendered() + "/mavenArtifacts"@,
                Option::None => "/job/"@ + job_name.rendered() + "/"@ + number.rendered()
                    + "/mavenArtifacts"@,
            },
            PathView::InFolder { folder_name, path } => "/job/"@ + folder_name.rendered()
                + path.rendered(),
            PathView::Computers => "/computer/api/json"@,
            PathView::Computer { name } => "/computer/"@ + name.rendered() + "/api/json"@,
            PathView::Raw { path } => path,
            PathView::CrumbIssuer => "/crumbIssuer"@,
        }
    }
}

/// Clones an optional name, keeping its value.
fn clone_opt_name(o: &Option<Name>) -> (r: Option<Name>)
    ensures
        r == o,
{
    match o {
        Option::Some(n) => Option::Some(n.clone()),
        Option::None => Option::None,
    }
}

impl Clone for Path {
    fn clone(&self) -> (r: Self)
        ensures
            r == self,
        decreases self,
    {
        match self {
            Path::Home => Path::Home,
            Path::View { name } => Path::View { name: name.clone() },
            Path::AddJobToView { job_name, view_name } => Path::AddJobToView {
                job_name: job_name.clone(),
                view_name: view_name.clone(),
            },
            Path::RemoveJobFromView { job_name, view_name } => Path::RemoveJobFromView {
                job_name: job_name.clone(),
                view_name: view_name.clone(),
            },
            Path::Job { name, configuration } => Path::Job {
                name: name.clone(),
                configuration: clone_opt_name(configuration),
            },
            Path::BuildJob { name } => Path::BuildJob { name: name.clone() },
            Path::BuildJobWithParameters { name } => Path::BuildJobWithParameters {
                name: name.clone(),
            },
            Path::PollSCMJob { name } => Path::PollSCMJob { name: name.clone() },
            Path::JobEnable { name } => Path::JobEnable { name: name.clone() },
            Path::JobDisable { name } => Path::JobDisable { name: name.clone() },
            Path::Build { job_name, number, configuration } => Path::Build {
                job_name: job_name.clone(),
                number: *number,
                configuration: clone_opt_name(configuration),
            },
            Path::ConsoleText { job_name, number, configuration, folder_name } => Path::ConsoleText {
                job_name: job_name.clone(),
                number: *number,
                configuration: clone_opt_name(configuration),
                folder_name: clone_opt_name(folder_name),
            },
            Path::ConfigXML { job_name, folder_name } => Path::ConfigXML {
                job_name: job_name.clone(),
                folder_name: clone_opt_name(folder_name),
            },
            Path::Queue => Path::Queue,
            Path::QueueItem { id } => Path::QueueItem { id: *id },
            Path::MavenArtifactRecord { job_name, number, configuration } => Path::MavenArtifactRecord {
                job_name: job_name.clone(),
                number: *number,
                configuration: clone_opt_name(configuration),
            },
            Path::InFolder { folder_name, path } => Path::InFolder {
                folder_name: folder_name.clone(),
                path: Box::new((**path).clone()),
            },
            Path::Computers => Path::Computers,
            Path::Computer { name } => Path::Computer { name: name.clone() },
            Path::Raw { path } => Path::Raw { path: path.clone() },
            Path::CrumbIssuer => Path::CrumbIssuer,
        }
    }
}

/// Every rendered path other than the home page and a verbatim raw
/// path begins with `/`. In particular a location nested in a folder
/// concatenates cleanly: the inner rendering supplies the separator
/// after the folder segment itself.
pub proof fn lemma_rendered_leading_slash(m: PathView)
    requires
        !(m is Home),
        !(m is Raw),
    ensures
        m.rendered().len() > 0,
        m.rendered()[0] == '/',
{
    reveal_strlit("/view/");
    reveal_strlit("/job/");
    reveal_strlit("/queue");
    reveal_strlit("/queue/item/");
    reveal_strlit("/computer/api/json");
    reveal_strlit("/computer/");
    reveal_strlit("/crumbIssuer");
}

impl Path {
    /// Renders the location to its canonical path string. Rendering is
    /// total: every variant produces exactly the template of its model.
    pub fn to_string(&self) -> (r: String)
        ensures
            r@ == self@.rendered(),
        decreases self,
    {
        let mut out = String::new();
        match self {
            Path::Home => {},
            Path::View { name } => {
                out.append("/view/");
                out.append(name.render().as_str());
            },
            Path::AddJobToView { job_name, view_name } => {
                out.append("/view/");
                out.append(view_name.render().as_str());
                out.append("/addJobToView?name=");
                out.append(job_name.render().as_str());
            },
            Path::RemoveJobFromView { job_name, view_name } => {
                out.append("/view/");
                out.append(view_name.render().as_str());
                out.append("/removeJobFromView?name=");
                out.append(job_name.render().as_str());
            },
            Path::Job { name, configuration } => {
                out.append("/job/");
                out.append(name.render().as_str());
                if let Option::Some(c) = configuration {
                    out.append("/");
                    out.append(c.render().as_str());
                }
            },
            Path::BuildJob { name } => {
                out.append("/job/");
                out.append(name.render().as_str());
                out.append("/build");
            },
            Path::BuildJobWithParameters { name } => {
                out.append("/job/");
                out.append(name.render().as_str());
                out.append("/buildWithParameters");
            },
            Path::PollSCMJob { name } => {
                out.append("/job/");
                out.append(name.render().as_str());
                out.append("/polling");
            },
            Path::JobEnable { name } => {
                out.append("/job/");
                out.append(name.render().as_str());
                out.append("/enable");
            },
            Path::JobDisable { name } => {
                out.append("/job/");
                out.append(name.render().as_str());
                out.append("/disable");
            },
            Path::Build { job_name, number, configuration } => {
                out.append("/job/");
                out.append(job_name.render().as_str());
                if let Option::Some(c) = configuration {
                    out.append("/");
                    out.append(c.render().as_str());
                }
                out.append("/");
                out.append(number.render().as_str());
            },
            Path::ConsoleText { job_name, number, configuration, folder_name } => {
                if let Option::Some(f) = folder_name {
                    out.append("/job/");
                    out.append(f.render().as_str());
                }
                out.append("/job/");
                out.append(job_name.render().as_str());
                if let Option::Some(c) = configuration {
                    out.append("/");
                    out.append(c.render().as_str());
                }
                out.append("/");
                out.append(number.render().as_str());
                out.append("/consoleText");
            },
            Path::ConfigXML { job_name, folder_name } => {
                if let Option::Some(f) = folder_name {
                    out.append("/job/");
                    out.append(f.render().as_str());
                }
                out.append("/job/");
                out.append(job_name.render().as_str());
                out.append("/config.xml");
            },
            Path::Queue => {
                out.append("/queue");
            },
            Path::QueueItem { id } => {
                out.append("/queue/item/");
                let v = *id;
                if v < 0 {
                    out.append("-");
                    let mag: u32 = if v == i32::MIN {
                        0x8000_0000
                    } else {
                        (-v) as u32
                    };
                    proof {
                        reveal_strlit("-");
                        assert("-"@ =~= seq!['-']);
                        assert(mag as int == -(v as int));
                    }
                    push_dec_u32(&mut out, mag);
                } else {
                    push_dec_u32(&mut out, v as u32);
                }
            },
            Path::MavenArtifactRecord { job_name, number, configuration } => {
                out.append("/job/");
                out.append(job_name.render().as_str());
                if let Option::Some(c) = configuration {
                    out.append("/");
                    out.append(c.render().as_str());
                }
                out.append("/");
                out.append(number.render().as_str());
                out.append("/mavenArtifacts");
            },
            Path::InFolder { folder_name, path } => {
                out.append("/job/");
                out.append(folder_name.render().as_str());
                let inner = path.to_string();
                out.append(inner.as_str());
            },
            Path::Computers => {
                out.append("/computer/api/json");
            },
            Path::Computer { name } => {
                out.append("/computer/");
                out.append(name.render().as_str());
                out.append("/api/json");
            },
            Path::Raw { path } => {
                out.append(path.as_str());
            },
            Path::CrumbIssuer => {
                out.append("/crumbIssuer");
            },
        }
        proof {
            assert(out@ =~= self@.rendered());
        }
        out
    }
}

} // verus!
