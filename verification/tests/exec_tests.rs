use exec::{Command, Error, NulError};

fn bytes(s: &str) -> Vec<u8> {
    s.as_bytes().to_vec()
}

#[test]
fn program_cstring_appends_single_nul() {
    let r = exec::to_program_cstring(&bytes("echo"));
    match r {
        Ok(c) => assert_eq!(c, vec![b'e', b'c', b'h', b'o', 0]),
        Err(_) => panic!("clean program name was rejected"),
    }
}

#[test]
fn empty_string_becomes_lone_nul() {
    let r = exec::to_program_cstring(&Vec::new());
    match r {
        Ok(c) => assert_eq!(c, vec![0u8]),
        Err(_) => panic!("empty string was rejected"),
    }
}

#[test]
fn nul_in_program_rejected() {
    let program = vec![b'e', 0, b'c'];
    let r = exec::to_program_cstring(&program);
    match r {
        Ok(_) => panic!("string with a nul byte was accepted"),
        Err(e) => {
            assert_eq!(e.nul_position(), 1);
            assert_eq!(e.into_vec(), vec![b'e', 0, b'c']);
        }
    }
}

#[test]
fn nul_position_is_first() {
    let r = exec::to_program_cstring(&vec![0u8, 0, 7]);
    match r {
        Ok(_) => panic!("string with nul bytes was accepted"),
        Err(e) => assert_eq!(e.nul_position(), 0),
    }
}

#[test]
fn argv_buffers_are_terminated_copies() {
    let args = vec![bytes("echo"), bytes("hello"), Vec::new()];
    let r = exec::to_argv(&args);
    match r {
        Ok(a) => {
            let cs = a.cstrings();
            assert_eq!(cs.len(), 3);
            assert_eq!(cs[0], vec![b'e', b'c', b'h', b'o', 0]);
            assert_eq!(cs[1], vec![b'h', b'e', b'l', b'l', b'o', 0]);
            assert_eq!(cs[2], vec![0u8]);
        }
        Err(_) => panic!("clean argument list was rejected"),
    }
}

#[test]
fn empty_argument_list_accepted() {
    let r = exec::to_argv(&Vec::new());
    match r {
        Ok(a) => assert_eq!(a.cstrings().len(), 0),
        Err(_) => panic!("empty argument list was rejected"),
    }
}

#[test]
fn argv_reports_first_bad_argument() {
    let args = vec![bytes("ok"), vec![b'a', 0, b'b'], vec![0u8]];
    let r = exec::to_argv(&args);
    match r {
        Ok(_) => panic!("argument with a nul byte was accepted"),
        Err(e) => {
            assert_eq!(e.nul_position(), 1);
            assert_eq!(e.into_vec(), vec![b'a', 0, b'b']);
        }
    }
}

#[test]
fn envp_encodes_name_equals_value() {
    let envs = vec![(bytes("NAME"), bytes("VALUE"))];
    let r = exec::to_envp(&envs);
    match r {
        Ok(e) => {
            let cs = e.cstrings();
            assert_eq!(cs.len(), 1);
            assert_eq!(cs[0], b"NAME=VALUE\0".to_vec());
        }
        Err(_) => panic!("clean environment was rejected"),
    }
}

#[test]
fn envp_rejects_nul_in_name() {
    let envs = vec![(vec![b'N', 0], bytes("V"))];
    let r = exec::to_envp(&envs);
    match r {
        Ok(_) => panic!("environment name with a nul byte was accepted"),
        Err(e) => {
            assert_eq!(e.nul_position(), 1);
            assert_eq!(e.into_vec(), vec![b'N', 0, b'=', b'V']);
        }
    }
}

#[test]
fn envp_rejects_nul_in_value() {
    let envs = vec![(bytes("N"), vec![b'V', 0, b'W'])];
    let r = exec::to_envp(&envs);
    match r {
        Ok(_) => panic!("environment value with a nul byte was accepted"),
        Err(e) => {
            // position counts within the "name=value" encoding
            assert_eq!(e.nul_position(), 3);
            assert_eq!(e.into_vec(), vec![b'N', b'=', b'V', 0, b'W']);
        }
    }
}

#[test]
fn prepare_execvp_accepts_clean_input() {
    let r = exec::prepare_execvp(&bytes("echo"), &vec![bytes("echo"), bytes("hi")]);
    match r {
        Ok((program, argv)) => {
            assert_eq!(program, b"echo\0".to_vec());
            assert_eq!(argv.cstrings().len(), 2);
            assert_eq!(argv.cstrings()[1], b"hi\0".to_vec());
        }
        Err(_) => panic!("clean input was rejected"),
    }
}

#[test]
fn prepare_execvp_checks_program_before_arguments() {
    let r = exec::prepare_execvp(&vec![0u8], &vec![vec![b'x', 0]]);
    match r {
        Err(Error::BadArgument(e)) => {
            assert_eq!(e.nul_position(), 0);
            assert_eq!(e.into_vec(), vec![0u8]);
        }
        _ => panic!("expected a BadArgument error for the program name"),
    }
}

#[test]
fn prepare_execvpe_checks_environment_last() {
    let r = exec::prepare_execvpe(
        &bytes("env"),
        &vec![bytes("env")],
        &vec![(bytes("A"), bytes("B")), (bytes("C"), vec![0u8])],
    );
    match r {
        Err(Error::BadArgument(e)) => {
            assert_eq!(e.nul_position(), 2);
            assert_eq!(e.into_vec(), vec![b'C', b'=', 0]);
        }
        _ => panic!("expected a BadArgument error for the environment"),
    }
}

#[test]
fn prepare_execvpe_accepts_clean_input() {
    let r = exec::prepare_execvpe(&bytes("env"), &vec![bytes("env")], &vec![(bytes("A"), bytes("B"))]);
    match r {
        Ok((program, argv, envp)) => {
            assert_eq!(program, b"env\0".to_vec());
            assert_eq!(argv.cstrings().len(), 1);
            assert_eq!(envp.cstrings()[0], b"A=B\0".to_vec());
        }
        Err(_) => panic!("clean input was rejected"),
    }
}

#[test]
fn failure_is_idempotent() {
    let program = bytes("echo");
    let args = vec![vec![b'a', 0, b'b']];
    let r1 = exec::prepare_execvp(&program, &args);
    let r2 = exec::prepare_execvp(&program, &args);
    match (r1, r2) {
        (Err(Error::BadArgument(e1)), Err(Error::BadArgument(e2))) => {
            assert_eq!(e1.nul_position(), e2.nul_position());
            assert_eq!(e1.into_vec(), e2.into_vec());
        }
        _ => panic!("both calls should fail with BadArgument"),
    }
}

#[test]
fn command_accumulates_argv() {
    let c = Command::new(bytes("echo")).arg(bytes("hello")).arg(bytes("world"));
    let argv = c.argv();
    assert_eq!(argv.len(), 3);
    assert_eq!(argv[0], bytes("echo"));
    assert_eq!(argv[1], bytes("hello"));
    assert_eq!(argv[2], bytes("world"));
    assert_eq!(c.len(), 3);
}

#[test]
fn command_args_appends_in_order() {
    let c = Command::new(bytes("echo")).args(&vec![bytes("a"), bytes("b")]).arg(bytes("c"));
    let argv = c.argv();
    assert_eq!(argv.len(), 4);
    assert_eq!(argv[1], bytes("a"));
    assert_eq!(argv[2], bytes("b"));
    assert_eq!(argv[3], bytes("c"));
}

#[test]
fn command_prepare_matches_direct_execvp() {
    let c = Command::new(bytes("echo")).arg(bytes("hello")).arg(bytes("world"));
    let direct = exec::prepare_execvp(
        &bytes("echo"),
        &vec![bytes("echo"), bytes("hello"), bytes("world")],
    );
    match (c.prepare(), direct) {
        (Ok((p1, a1)), Ok((p2, a2))) => {
            assert_eq!(p1, p2);
            assert_eq!(a1.cstrings(), a2.cstrings());
        }
        _ => panic!("both ways should accept the same clean input"),
    }
}

#[test]
fn command_prepare_rejects_like_execvp() {
    let c = Command::new(bytes("echo")).arg(vec![b'x', 0]);
    match c.prepare() {
        Err(Error::BadArgument(e)) => assert_eq!(e.nul_position(), 1),
        _ => panic!("expected a BadArgument error"),
    }
}

#[test]
fn descriptions_name_the_failure_kind() {
    let bad = Error::BadArgument(NulError { position: 0, bytes: vec![0u8] });
    assert_eq!(bad.description(), "bad argument to exec");
    let os = Error::Errno(libc::ENOENT);
    assert_eq!(os.description(), "couldn't exec process");
}

#[test]
fn cause_exposes_the_nul_error() {
    let bad = Error::BadArgument(NulError { position: 2, bytes: vec![7, 7, 0] });
    match bad.cause() {
        Some(e) => assert_eq!(e.nul_position(), 2),
        None => panic!("BadArgument should expose its cause"),
    }
    assert!(matches!(Error::Errno(libc::ENOENT).cause(), None));
}

#[test]
fn nul_error_message_gives_the_position() {
    let e = NulError { position: 2, bytes: vec![7, 7, 0] };
    assert_eq!(e.message(), "nul byte found in provided data at position: 2");
    let far = NulError { position: 12305, bytes: Vec::new() };
    assert_eq!(far.message(), "nul byte found in provided data at position: 12305");
    let zero = NulError { position: 0, bytes: vec![0] };
    assert_eq!(zero.message(), "nul byte found in provided data at position: 0");
}

#[test]
fn bad_argument_message_renders_in_full() {
    let bad = Error::BadArgument(NulError { position: 1, bytes: vec![b'a', 0] });
    assert_eq!(
        bad.message(),
        "bad argument to exec: nul byte found in provided data at position: 1"
    );
}

#[test]
fn errno_message_carries_the_os_description() {
    let os = Error::Errno(libc::ENOENT);
    let message = os.message();
    let description = format!("{}", errno::Errno(libc::ENOENT));
    assert_eq!(message, format!("couldn't exec process: {}", description));
    // "no such file or directory", as the platform capitalises it
    assert!(message.to_lowercase().contains("no such file or directory"));
}

#[test]
fn negative_exec_return_classifies_as_errno() {
    match exec::classify_exec_return(-1, libc::ENOENT) {
        Some(Error::Errno(code)) => assert_eq!(code, libc::ENOENT),
        _ => panic!("a negative result must classify as Errno"),
    }
    // any other result is excluded by the OS contract: no error stands for it
    assert!(matches!(exec::classify_exec_return(0, 0), None));
}

#[test]
fn from_wraps_a_nul_error() {
    let e = Error::from(NulError { position: 3, bytes: vec![1, 2, 3, 0] });
    match e {
        Error::BadArgument(n) => assert_eq!(n.nul_position(), 3),
        Error::Errno(_) => panic!("From<NulError> should give BadArgument"),
    }
}
