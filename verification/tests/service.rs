use volume_proxy::disconnect::Disconnect;
use volume_proxy::hook::{
    Hook, HookCall, HookReply, HookRequest, HOOK_DELAY, QUEUE_DELAY, SHELL_DELAY,
};
use volume_proxy::log::{log_entry, number};
use volume_proxy::run::Outcome;
use volume_proxy::startup::{restart_delay, wants_log};
use volume_proxy::watch::{live, welcome, Arrival};

const INSTALL: HookCall =
    HookCall::Install(HookRequest { first: 3, last: 3, process: 0, thread: 0, flags: 2 });

#[test]
fn hook_waits_for_the_shell() {
    let mut hook = Hook::start();
    let mut calls: Vec<HookCall> = Vec::new();
    let replies = vec![
        HookReply::Flag(false),
        HookReply::Done,
        HookReply::Done,
        HookReply::Flag(false),
        HookReply::Done,
        HookReply::Flag(true),
        HookReply::Flag(false),
        HookReply::Done,
        HookReply::Flag(true),
    ];
    for reply in replies {
        calls.push(hook.call().unwrap());
        hook = hook.advance(reply);
    }
    assert_eq!(
        calls,
        vec![
            HookCall::ShellWindow,
            HookCall::NoteWaiting,
            HookCall::Sleep(SHELL_DELAY),
            HookCall::ShellWindow,
            HookCall::Sleep(SHELL_DELAY),
            HookCall::ShellWindow,
            INSTALL,
            HookCall::Sleep(HOOK_DELAY),
            INSTALL,
        ]
    );
    assert_eq!(hook, Hook::Listen);
    assert_eq!((SHELL_DELAY, HOOK_DELAY, QUEUE_DELAY), (1_000, 2_000, 500));
}

#[test]
fn hook_pumps_until_it_is_asked_to_quit() {
    let hook = Hook::Listen;
    assert_eq!(hook.call(), Some(HookCall::GetMessage { first: 0, last: 0 }));
    for result in vec![1, 5, -2] {
        let message = hook.advance(HookReply::Message(result));
        assert_eq!(message.call(), Some(HookCall::Dispatch));
        assert_eq!(message.advance(HookReply::Done), hook);
    }
    let error = hook.advance(HookReply::Message(-1));
    assert_eq!(error.call(), Some(HookCall::Sleep(QUEUE_DELAY)));
    assert_eq!(error.advance(HookReply::Done), hook);
    assert_eq!(hook.advance(HookReply::Message(0)).call(), None);
}

#[test]
fn expired_sessions_are_dismissed() {
    assert!(live(Some(0)));
    assert!(live(Some(1)));
    assert!(!live(Some(2)));
    assert!(live(Some(3)));
    assert!(!live(None));
    let mut watched = vec!["a", "b", "c", "d", "e"];
    let states = vec![Some(1), Some(2), Some(0), None, Some(1)];
    let dismissed = welcome(&mut watched, &states, "f");
    assert_eq!(watched, vec!["a", "c", "e", "f"]);
    assert_eq!(dismissed, vec!["b", "d"]);
    let mut empty: Vec<u8> = Vec::new();
    assert_eq!(welcome(&mut empty, &vec![], 9), Vec::<u8>::new());
    assert_eq!(empty, vec![9]);
}

#[test]
fn the_living_stay() {
    let mut watched = vec![1, 2, 3];
    assert!(welcome(&mut watched, &vec![Some(0), Some(1), Some(1)], 4).is_empty());
    assert_eq!(watched, vec![1, 2, 3, 4]);
}

#[test]
fn arrivals_are_watched_when_every_step_succeeds() {
    for present in vec![true, false] {
        for controllable in vec![true, false] {
            for registered in vec![true, false] {
                let arrival = Arrival::start(present).advance(controllable).advance(registered);
                let expected = present && controllable && registered;
                assert_eq!(arrival == Arrival::Admit, expected);
                assert_eq!(arrival.advance(true), Arrival::End);
            }
        }
    }
}

#[test]
fn verbose_flag_is_found() {
    let args = |list: Vec<&str>| -> Vec<String> { list.iter().map(|s| s.to_string()).collect() };
    assert!(wants_log(&args(vec!["volume-proxy.exe", "--verbose"])));
    assert!(wants_log(&args(vec!["--verbose", "x"])));
    assert!(!wants_log(&args(vec![])));
    assert!(!wants_log(&args(vec!["volume-proxy.exe", "--verbos", "-verbose", "--VERBOSE"])));
}

#[test]
fn restarts_are_delayed() {
    assert_eq!(restart_delay(Outcome::Lost), 500);
    assert_eq!(restart_delay(Outcome::Failed(-1)), 5_000);
}

#[test]
fn only_a_published_event_is_signalled() {
    let looked = Disconnect::start().advance(0);
    assert_eq!(looked, Disconnect::LoadWake);
    assert_eq!(looked.advance(0), Disconnect::End);
    assert_eq!(looked.advance(0x44), Disconnect::Signal(0x44));
    assert_eq!(looked.advance(0x44).advance(0), Disconnect::End);
}

#[test]
fn log_entries_are_lines() {
    assert_eq!(log_entry(false, 1, "x"), None);
    assert_eq!(log_entry(true, 0, ""), Some("[0] \n".to_string()));
    assert_eq!(
        log_entry(true, 1_700_000_009, "Shell Window is ready."),
        Some("[1700000009] Shell Window is ready.\n".to_string())
    );
    for n in vec![0, 9, 10, 99, 100, 1_234_567_890, u64::MAX] {
        assert_eq!(number(n), format!("{}", n));
    }
}
