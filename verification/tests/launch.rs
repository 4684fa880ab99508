use backend_supervisor::envelope::{StorageStep, SupervisorError};
use backend_supervisor::launch::{
    find_existing, pick_executable, plan_launch, resolve_project_root, Candidate, EnvVar,
    ExecutableProbe, LaunchMode, LaunchPlan, LaunchRequest, StorageProbe, WorkingDir,
    BUNDLED_NAME, DATABASE_FILE, STORAGE_VARIABLE,
};

fn var(name: &str, value: &str) -> EnvVar {
    EnvVar { name: name.to_string(), value: value.to_string() }
}

fn dir(path: &str, name: Option<&str>, parent: Option<&str>) -> WorkingDir {
    WorkingDir {
        path: path.to_string(),
        name: name.map(|n| n.to_string()),
        parent: parent.map(|p| p.to_string()),
    }
}

#[test]
fn project_root_of_a_host_in_its_own_tree() {
    let cwd = Some(dir("/work/app/src-tauri", Some("src-tauri"), Some("/work/app")));
    assert_eq!(resolve_project_root(&cwd, &Some("/elsewhere".to_string())), "/work/app");
    let rootless = Some(dir("src-tauri", Some("src-tauri"), None));
    assert_eq!(resolve_project_root(&rootless, &Some("/elsewhere".to_string())), ".");
}

#[test]
fn project_root_of_any_other_host() {
    let cwd = Some(dir("/work/app", Some("app"), Some("/work")));
    assert_eq!(resolve_project_root(&cwd, &Some("/from/exe".to_string())), "/from/exe");
    assert_eq!(resolve_project_root(&cwd, &None), "/work/app");
    let nameless = Some(dir("/", None, None));
    assert_eq!(resolve_project_root(&nameless, &None), "/");
    assert_eq!(resolve_project_root(&None, &Some("/from/exe".to_string())), ".");
    assert_eq!(resolve_project_root(&None, &None), ".");
}

#[test]
fn development_plan_runs_the_script_with_verbose_logging() {
    let request = LaunchRequest {
        mode: LaunchMode::Development {
            working_dir: Some(dir("/work/app/src-tauri", Some("src-tauri"), Some("/work/app"))),
            executable_root: None,
        },
        storage: StorageProbe::Ready("/data/chat.db".to_string()),
    };
    assert_eq!(
        plan_launch(&request),
        Ok(LaunchPlan {
            program: "python".to_string(),
            script: vec!["server".to_string(), "run.py".to_string()],
            working_dir: Some("/work/app".to_string()),
            env: vec![
                var("LOG_LEVEL_DEBUG", "true"),
                var("FLASK_ENV", "development"),
                var("DB_PATH", "/data/chat.db"),
            ],
            capture_output: true,
        })
    );
}

#[test]
fn development_plan_without_storage_path() {
    let request = LaunchRequest {
        mode: LaunchMode::Development { working_dir: None, executable_root: None },
        storage: StorageProbe::Unresolved("no home".to_string()),
    };
    let plan = plan_launch(&request).expect("a plan");
    assert_eq!(plan.working_dir.as_deref(), Some("."));
    assert_eq!(plan.env, vec![var("LOG_LEVEL_DEBUG", "true"), var("FLASK_ENV", "development")]);
    assert!(plan.capture_output);
}

#[test]
fn packaged_plan_runs_the_bundled_executable() {
    let request = LaunchRequest {
        mode: LaunchMode::Packaged {
            executable: ExecutableProbe::Located("/opt/app/flask-api".to_string()),
        },
        storage: StorageProbe::Ready("/data/chat.db".to_string()),
    };
    assert_eq!(
        plan_launch(&request),
        Ok(LaunchPlan {
            program: "/opt/app/flask-api".to_string(),
            script: vec![],
            working_dir: None,
            env: vec![var("DB_PATH", "/data/chat.db")],
            capture_output: true,
        })
    );
}

#[test]
fn packaged_plan_takes_the_first_candidate_that_exists() {
    let candidates = vec![
        Candidate { path: "C:/app/flask-api-x86_64-pc-windows-msvc.exe".to_string(), exists: false },
        Candidate { path: "C:/app/flask-api.exe".to_string(), exists: true },
        Candidate { path: "C:/app/other.exe".to_string(), exists: true },
    ];
    assert_eq!(find_existing(&candidates), Some(1));
    assert_eq!(
        pick_executable(&ExecutableProbe::Candidates(candidates.clone())),
        Ok("C:/app/flask-api.exe".to_string())
    );
    let request = LaunchRequest {
        mode: LaunchMode::Packaged { executable: ExecutableProbe::Candidates(candidates) },
        storage: StorageProbe::Unresolved("x".to_string()),
    };
    let plan = plan_launch(&request).expect("a plan");
    assert_eq!(plan.program, "C:/app/flask-api.exe");
    assert!(plan.env.is_empty());
}

#[test]
fn missing_executable_is_reported() {
    let none = vec![
        Candidate { path: "a".to_string(), exists: false },
        Candidate { path: "b".to_string(), exists: false },
    ];
    assert_eq!(find_existing(&none), None);
    assert_eq!(find_existing(&Vec::new()), None);
    assert_eq!(
        pick_executable(&ExecutableProbe::Candidates(none)),
        Err(SupervisorError::MissingExecutable(None))
    );
    let request = LaunchRequest {
        mode: LaunchMode::Packaged {
            executable: ExecutableProbe::NotLocated("sidecar not configured".to_string()),
        },
        storage: StorageProbe::Ready("/data/chat.db".to_string()),
    };
    let error = plan_launch(&request).expect_err("no executable");
    assert_eq!(error, SupervisorError::MissingExecutable(Some("sidecar not configured".to_string())));
    assert_eq!(
        error.message(),
        "Cannot find embedded Python server executable: sidecar not configured"
    );
}

#[test]
fn storage_that_cannot_be_created_ends_the_launch() {
    for mode in [
        LaunchMode::Development { working_dir: None, executable_root: None },
        LaunchMode::Packaged { executable: ExecutableProbe::Located("x".to_string()) },
        LaunchMode::Packaged { executable: ExecutableProbe::NotLocated("y".to_string()) },
    ] {
        let request =
            LaunchRequest { mode, storage: StorageProbe::CreateFailed("read-only".to_string()) };
        assert_eq!(
            plan_launch(&request),
            Err(SupervisorError::StorageUnavailable(StorageStep::Create, "read-only".to_string()))
        );
    }
}

#[test]
fn names_of_the_launch() {
    assert_eq!(DATABASE_FILE, "chat.db");
    assert_eq!(STORAGE_VARIABLE, "DB_PATH");
    assert_eq!(BUNDLED_NAME, "flask-api");
}
