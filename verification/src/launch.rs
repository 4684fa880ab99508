//! How the worker is launched: from the project tree while developing, or
//! as the bundled executable once packaged, and with which environment.

use crate::envelope::{StorageStep, SupervisorError};
use crate::text::same_text;
use vstd::prelude::*;
use vstd::string::*;

verus! {

/// The name of the worker's data file inside the storage directory.
pub const DATABASE_FILE: &'static str = "chat.db";

/// The environment variable that tells the worker where its data file is.
pub const STORAGE_VARIABLE: &'static str = "DB_PATH";

/// The base name of the bundled worker executable.
pub const BUNDLED_NAME: &'static str = "flask-api";

/// What came of preparing the storage directory.
#[derive(Debug, Clone, PartialEq, Eq)]
pub enum StorageProbe {
    /// The directory exists; the payload is the path of the data file in it.
    Ready(String),
    /// The directory could not be determined; the payload says why.
    Unresolved(String),
    /// The directory could not be created; the payload says why.
    CreateFailed(String),
}

/// The directory a process runs in, as far as launching is concerned.
#[derive(Debug, Clone, PartialEq, Eq)]
pub struct WorkingDir {
    /// The directory itself.
    pub path: String,
    /// Its last component, if it has one that is text.
    pub name: Option<String>,
    /// The directory above it, if there is one.
    pub parent: Option<String>,
}

/// A place where the bundled executable may be.
#[derive(Debug, Clone, PartialEq, Eq)]
pub struct Candidate {
    pub path: String,
    /// Whether a file is there.
    pub exists: bool,
}

/// What is known of the bundled executable.
#[derive(Debug, Clone, PartialEq, Eq)]
pub enum ExecutableProbe {
    /// The host runtime has located it.
    Located(String),
    /// The host runtime could not locate it; the payload says why.
    NotLocated(String),
    /// These places were looked at, in the order of preference.
    Candidates(Vec<Candidate>),
}

/// The two ways to launch the worker.
#[derive(Debug, Clone, PartialEq, Eq)]
pub enum LaunchMode {
    /// Run the worker's script with the interpreter, from the project tree.
    Development {
        /// The directory the host runs in, if it is known.
        working_dir: Option<WorkingDir>,
        /// The directory five levels above the host's executable, if there
        /// is one.
        executable_root: Option<String>,
    },
    /// Run the bundled executable.
    Packaged { executable: ExecutableProbe },
}

/// All that a launch is planned from.
#[derive(Debug, Clone, PartialEq, Eq)]
pub struct LaunchRequest {
    pub mode: LaunchMode,
    pub storage: StorageProbe,
}

/// One variable of the worker's environment.
#[derive(Debug, Clone, PartialEq, Eq)]
pub struct EnvVar {
    pub name: String,
    pub value: String,
}

/// How to create the worker process.
#[derive(Debug, Clone, PartialEq, Eq)]
pub struct LaunchPlan {
    /// The program to run.
    pub program: String,
    /// The script to hand to the program as its one argument, given as the
    /// components of its path below the working directory; empty where the
    /// program takes no argument.
    pub script: Vec<String>,
    /// The directory to run in, where it matters.
    pub working_dir: Option<String>,
    /// The variables to add to the environment, in this order.
    pub env: Vec<EnvVar>,
    /// Whether the worker's standard output and standard error are captured
    /// rather than inherited from the host.
    pub capture_output: bool,
}

/// A launch plan as plain mathematical data.
pub struct LaunchPlanView {
    pub program: Seq<char>,
    pub script: Seq<Seq<char>>,
    pub working_dir: Option<Seq<char>>,
    pub env: Seq<(Seq<char>, Seq<char>)>,
    pub capture_output: bool,
}

/// The names and values of a list of variables.
pub open spec fn env_pairs(env: Seq<EnvVar>) -> Seq<(Seq<char>, Seq<char>)> {
    Seq::new(env.len(), |i: int| (env[i].name@, env[i].value@))
}

impl View for LaunchPlan {
    type V = LaunchPlanView;

    open spec fn view(&self) -> LaunchPlanView {
        LaunchPlanView {
            program: self.program@,
            script: Seq::new(self.script@.len(), |i: int| self.script@[i]@),
            working_dir: match self.working_dir {
                Some(dir) => Some(dir@),
                None => None,
            },
            env: env_pairs(self.env@),
            capture_output: self.capture_output,
        }
    }
}

/// The project tree to run the worker from while developing.
///
/// A host that runs in a directory named `src-tauri` takes the directory
/// above it. Any other host takes the directory five levels above its own
/// executable and, failing that, the directory it runs in. Where nothing is
/// known, the current directory stands in.
pub open spec fn project_root(
    working_dir: Option<WorkingDir>,
    executable_root: Option<String>,
) -> Seq<char> {
    match working_dir {
        None => "."@,
        Some(dir) => if dir.name is Some && dir.name->0@ == "src-tauri"@ {
            match dir.parent {
                Some(parent) => parent@,
                None => "."@,
            }
        } else {
            match executable_root {
                Some(root) => root@,
                None => dir.path@,
            }
        },
    }
}

/// The variable that carries the data file's path, where the path is known.
pub open spec fn storage_env(storage: StorageProbe) -> Seq<(Seq<char>, Seq<char>)> {
    match storage {
        StorageProbe::Ready(path) => seq![("DB_PATH"@, path@)],
        _ => seq![],
    }
}

/// The first of the candidates at which a file was found.
pub open spec fn first_existing(candidates: Seq<Candidate>) -> Option<int>
    decreases candidates.len(),
{
    if candidates.len() == 0 {
        None
    } else if candidates[0].exists {
        Some(0)
    } else {
        match first_existing(candidates.skip(1)) {
            Some(i) => Some(i + 1),
            None => None,
        }
    }
}

/// The bundled executable to run, or why there is none.
pub open spec fn bundled_executable(probe: ExecutableProbe) -> Result<Seq<char>, SupervisorError> {
    match probe {
        ExecutableProbe::Located(path) => Ok(path@),
        ExecutableProbe::NotLocated(reason) => Err(
            SupervisorError::MissingExecutable(Some(reason)),
        ),
        ExecutableProbe::Candidates(candidates) => match first_existing(candidates@) {
            Some(i) => Ok(candidates@[i].path@),
            None => Err(SupervisorError::MissingExecutable(None)),
        },
    }
}

/// The plan that a request leads to, or the failure that it ends in.
///
/// A storage directory that could not be created ends the launch before
/// anything else is looked at. The path of the data file goes into the
/// environment whenever it is known. While developing, the interpreter runs
/// the script `server/run.py` inside the project tree, with verbose logging
/// switched on. Either way the worker's output is captured.
pub open spec fn launch_outcome(request: LaunchRequest) -> Result<LaunchPlanView, SupervisorError> {
    match request.storage {
        StorageProbe::CreateFailed(reason) => Err(
            SupervisorError::StorageUnavailable(StorageStep::Create, reason),
        ),
        _ => match request.mode {
            LaunchMode::Development { working_dir, executable_root } => Ok(
                LaunchPlanView {
                    program: "python"@,
                    script: seq!["server"@, "run.py"@],
                    working_dir: Some(project_root(working_dir, executable_root)),
                    env: seq![("LOG_LEVEL_DEBUG"@, "true"@), ("FLASK_ENV"@, "development"@)]
                        + storage_env(request.storage),
                    capture_output: true,
                },
            ),
            LaunchMode::Packaged { executable } => match bundled_executable(executable) {
                Ok(path) => Ok(
                    LaunchPlanView {
                        program: path,
                        script: seq![],
                        working_dir: None,
                        env: storage_env(request.storage),
                        capture_output: true,
                    },
                ),
                Err(error) => Err(error),
            },
        },
    }
}

/// Computes [`project_root`].
pub fn resolve_project_root(
    working_dir: &Option<WorkingDir>,
    executable_root: &Option<String>,
) -> (root: String)
    ensures
        root@ == project_root(*working_dir, *executable_root),
{
    match working_dir {
        None => String::from_str("."),
        Some(dir) => {
            let in_host_tree = match &dir.name {
                Some(name) => same_text(name.as_str(), "src-tauri"),
                None => false,
            };
            if in_host_tree {
                match &dir.parent {
                    Some(parent) => parent.clone(),
                    None => String::from_str("."),
                }
            } else {
                match executable_root {
                    Some(root) => root.clone(),
                    None => dir.path.clone(),
                }
            }
        },
    }
}

/// Computes [`first_existing`].
pub fn find_existing(candidates: &Vec<Candidate>) -> (found: Option<usize>)
    ensures
        match found {
            Some(i) => first_existing(candidates@) == Some(i as int) && i < candidates.len(),
            None => first_existing(candidates@) is None,
        },
{
    let mut i: usize = candidates.len();
    let mut found: Option<usize> = None;
    while i > 0
        invariant
            i <= candidates.len(),
            match found {
                Some(k) => first_existing(candidates@.skip(i as int)) == Some(k - i) && i <= k
                    < candidates.len(),
                None => first_existing(candidates@.skip(i as int)) is None,
            },
        decreases i,
    {
        i -= 1;
        assert(candidates@.skip(i as int).skip(1) =~= candidates@.skip(i + 1));
        if candidates[i].exists {
            found = Some(i);
        }
    }
    assert(candidates@.skip(0) =~= candidates@);
    found
}

/// Computes [`bundled_executable`].
pub fn pick_executable(probe: &ExecutableProbe) -> (picked: Result<String, SupervisorError>)
    ensures
        match picked {
            Ok(path) => bundled_executable(*probe) == Ok::<Seq<char>, SupervisorError>(path@),
            Err(error) => bundled_executable(*probe) == Err::<Seq<char>, SupervisorError>(error),
        },
{
    match probe {
        ExecutableProbe::Located(path) => Ok(path.clone()),
        ExecutableProbe::NotLocated(reason) => Err(
            SupervisorError::MissingExecutable(Some(reason.clone())),
        ),
        ExecutableProbe::Candidates(candidates) => match find_existing(candidates) {
            Some(i) => Ok(candidates[i].path.clone()),
            None => Err(SupervisorError::MissingExecutable(None)),
        },
    }
}

/// The variables that carry the storage path: computes [`storage_env`] on
/// top of `env`.
fn push_storage_env(env: &mut Vec<EnvVar>, storage: &StorageProbe)
    ensures
        env_pairs(final(env)@) == env_pairs(old(env)@) + storage_env(*storage),
{
    match storage {
        StorageProbe::Ready(path) => {
            env.push(EnvVar { name: String::from_str("DB_PATH"), value: path.clone() });
        },
        _ => {},
    }
    assert(env_pairs(env@) =~= env_pairs(old(env)@) + storage_env(*storage));
}

/// Plans the launch of the worker: computes [`launch_outcome`].
pub fn plan_launch(request: &LaunchRequest) -> (planned: Result<LaunchPlan, SupervisorError>)
    ensures
        match planned {
            Ok(plan) => launch_outcome(*request) == Ok::<LaunchPlanView, SupervisorError>(plan@),
            Err(error) => launch_outcome(*request) == Err::<LaunchPlanView, SupervisorError>(
                error,
            ),
        },
{
    match &request.storage {
        StorageProbe::CreateFailed(reason) => {
            return Err(SupervisorError::StorageUnavailable(StorageStep::Create, reason.clone()));
        },
        _ => {},
    }
    match &request.mode {
        LaunchMode::Development { working_dir, executable_root } => {
            let root = resolve_project_root(working_dir, executable_root);
            let mut script: Vec<String> = Vec::new();
            script.push(String::from_str("server"));
            script.push(String::from_str("run.py"));
            let mut env: Vec<EnvVar> = Vec::new();
            env.push(
                EnvVar {
                    name: String::from_str("LOG_LEVEL_DEBUG"),
                    value: String::from_str("true"),
                },
            );
            env.push(
                EnvVar {
                    name: String::from_str("FLASK_ENV"),
                    value: String::from_str("development"),
                },
            );
            assert(env_pairs(env@) =~= seq![
                ("LOG_LEVEL_DEBUG"@, "true"@),
                ("FLASK_ENV"@, "development"@),
            ]);
            push_storage_env(&mut env, &request.storage);
            let plan = LaunchPlan {
                program: String::from_str("python"),
                script,
                working_dir: Some(root),
                env,
                capture_output: true,
            };
            proof {
                let want = launch_outcome(*request)->Ok_0;
                assert(plan@.script =~= want.script);
                assert(plan@.env =~= want.env);
            }
            Ok(plan)
        },
        LaunchMode::Packaged { executable } => match pick_executable(executable) {
            Ok(path) => {
                let mut env: Vec<EnvVar> = Vec::new();
                assert(env_pairs(env@) =~= Seq::empty());
                push_storage_env(&mut env, &request.storage);
                let plan = LaunchPlan {
                    program: path,
                    script: Vec::new(),
                    working_dir: None,
                    env,
                    capture_output: true,
                };
                proof {
                    let want = launch_outcome(*request)->Ok_0;
                    assert(plan@.script =~= want.script);
                    assert(plan@.env =~= want.env);
                }
                Ok(plan)
            },
            Err(error) => Err(error),
        },
    }
}

} // verus!
