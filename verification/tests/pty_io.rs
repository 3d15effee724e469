use portable_pty::native_pty_system;
use portable_pty::CommandBuilder;
use portable_pty::PtySize;
use pty_sessions::commands::close_terminal;
use pty_sessions::commands::spawn_terminal;
use pty_sessions::commands::write_to_terminal;
use pty_sessions::errors::SessionError;
use pty_sessions::pump::pump_step;
use pty_sessions::pump::PumpNotice;
use pty_sessions::pump::ReadEvent;
use pty_sessions::pump::PUMP_READ_LEN;
use pty_sessions::registry::TerminalManager;
use pty_sessions::spawn::explicit_spawn_command;
use pty_sessions::spawn::CommandPlan;
use std::io::Read;
use std::io::Write;
use std::sync::Arc;
use std::sync::Mutex;

/// The endpoints a real session hands the registry: the exclusive writer,
/// the master side for resizes, and the child handle for reaping.
struct Endpoints {
    writer: Box<dyn Write + Send>,
    _master: Box<dyn portable_pty::MasterPty + Send>,
    child: Box<dyn portable_pty::Child + Send + Sync>,
}

type Shared = Arc<Mutex<Endpoints>>;

/// Map one raw read outcome to the pump's event, as an embedding does.
fn classify(outcome: std::io::Result<usize>, buf: &[u8]) -> ReadEvent {
    match outcome {
        Ok(0) => ReadEvent::Eof,
        Ok(n) => ReadEvent::Data(buf[..n].to_vec()),
        Err(e) if e.kind() == std::io::ErrorKind::WouldBlock => ReadEvent::WouldBlock,
        Err(e) => ReadEvent::Failed(e.to_string()),
    }
}

/// Open a real pseudo-terminal, spawn the planned child on its slave side,
/// and register the session; returns the identifier and the pump's reader.
fn spawn_real(
    mgr: &mut TerminalManager<Shared>,
    plan: CommandPlan,
) -> (String, Box<dyn Read + Send>) {
    let pty_system = native_pty_system();
    let pair = pty_system
        .openpty(PtySize { rows: 24, cols: 80, pixel_width: 0, pixel_height: 0 })
        .expect("pty allocation");
    let mut cmd = CommandBuilder::new(&plan.program);
    for a in &plan.args {
        cmd.arg(a);
    }
    if let Some(d) = &plan.cwd {
        cmd.cwd(d);
    }
    for (k, v) in &plan.env {
        cmd.env(k, v);
    }
    let child = pair.slave.spawn_command(cmd).expect("spawn child");
    let reader = pair.master.try_clone_reader().expect("clone reader");
    let writer = pair.master.take_writer().expect("take writer");
    let endpoints = Arc::new(Mutex::new(Endpoints { writer, _master: pair.master, child }));
    let id = spawn_terminal(mgr, None, None, endpoints).expect("register session");
    (id, reader)
}

fn base_env() -> Vec<(String, String)> {
    vec![(String::from("PATH"), String::from("/usr/bin:/bin"))]
}

#[test]
fn immediately_exiting_child_closes_exactly_once() {
    let mut mgr: TerminalManager<Shared> = TerminalManager::new();
    let plan =
        explicit_spawn_command(String::from("/"), String::from("false"), Vec::new(), base_env());
    let (_id, mut reader) = spawn_real(&mut mgr, plan);
    let mut buf = vec![0u8; PUMP_READ_LEN];
    let mut notices: Vec<PumpNotice> = Vec::new();
    loop {
        let ev = classify(reader.read(&mut buf), &buf);
        let d = pump_step(ev);
        if let Some(n) = d.notice {
            notices.push(n);
        }
        if d.stop {
            break;
        }
    }
    // Exactly one closed notice, as the last notice, and no error before it.
    assert!(matches!(notices.last(), Some(PumpNotice::Closed)));
    let closed = notices.iter().filter(|n| matches!(n, PumpNotice::Closed)).count();
    assert_eq!(closed, 1);
    assert!(notices.iter().all(|n| !matches!(n, PumpNotice::Failed(_))));
}

#[test]
fn written_bytes_come_back_through_the_pump() {
    let mut mgr: TerminalManager<Shared> = TerminalManager::new();
    let plan =
        explicit_spawn_command(String::from("/"), String::from("cat"), Vec::new(), base_env());
    let (id, mut reader) = spawn_real(&mut mgr, plan);

    {
        let shared = write_to_terminal(&mgr, &id).expect("session must resolve");
        let mut endpoints = shared.lock().unwrap();
        endpoints.writer.write_all(b"hi\n").expect("write");
        endpoints.writer.flush().expect("flush");
    }

    let mut buf = vec![0u8; PUMP_READ_LEN];
    let mut seen: Vec<u8> = Vec::new();
    while !seen.windows(2).any(|w| w == b"hi") {
        let ev = classify(reader.read(&mut buf), &buf);
        match pump_step(ev) {
            d if d.stop => panic!("pump stopped before the bytes came back"),
            d => {
                if let Some(PumpNotice::Output(bytes)) = d.notice {
                    seen.extend_from_slice(&bytes);
                }
            },
        }
    }

    {
        let shared = write_to_terminal(&mgr, &id).expect("session must resolve");
        shared.lock().unwrap().child.kill().ok();
    }
    close_terminal(&mut mgr, &id).expect("close");
    assert!(matches!(write_to_terminal(&mgr, &id), Err(SessionError::NotFound)));
}
