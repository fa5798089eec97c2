use command_limits::{Action, Batcher, CommandBuilder, CommandLimits, Error, Outcome, Phase, Platform};

fn base(arg_size: usize, individual: Option<usize>) -> CommandBuilder {
    let limits = CommandLimits {
        arg_size,
        individual_arg_size: individual,
        arg_count: None,
        env_size: None,
        individual_env_size: None,
        env_count: None,
        platform: Platform::Unix,
    };
    CommandBuilder::with_limits(b"p", limits, &[]).unwrap()
}

/// Feeds `tokens`, answers each run with the next of `exits` (then 0), and
/// returns the arguments of each run and the final action.
fn drive(b: &mut Batcher, tokens: &[&[u8]], exits: &[Outcome]) -> (Vec<Vec<Vec<u8>>>, Action) {
    let mut runs = Vec::new();
    let mut next_token = 0;
    let mut next_exit = 0;
    let mut action = Action::ReadToken;
    loop {
        match action {
            Action::ReadToken => {
                let t = tokens.get(next_token).map(|t| t.to_vec());
                next_token += 1;
                action = b.on_token(t);
            }
            Action::Run => {
                runs.push(b.command().get_args());
                let outcome = exits.get(next_exit).copied().unwrap_or(Outcome::Exited(0));
                next_exit += 1;
                action = b.on_exit(outcome);
            }
            Action::Finish(_) | Action::Abort(_) => return (runs, action),
        }
    }
}

#[test]
fn ten_arguments_make_three_batches() {
    // 40 bytes left after the program; every one-byte argument costs 10.
    let mut b = Batcher::new(base(50, None));
    let tokens: Vec<&[u8]> = vec![b"0", b"1", b"2", b"3", b"4", b"5", b"6", b"7", b"8", b"9"];
    let (runs, end) = drive(&mut b, &tokens, &[]);
    let sizes: Vec<usize> = runs.iter().map(|r| r.len()).collect();
    assert_eq!(sizes, vec![4, 4, 2]);
    assert_eq!(runs[1], vec![b"4".to_vec(), b"5".to_vec(), b"6".to_vec(), b"7".to_vec()]);
    assert_eq!(end, Action::Finish(0));
    assert_eq!(b.phase(), Phase::Stopped);
}

#[test]
fn no_input_runs_nothing() {
    let mut b = Batcher::new(base(50, None));
    let (runs, end) = drive(&mut b, &[], &[]);
    assert!(runs.is_empty());
    assert_eq!(end, Action::Finish(0));
}

#[test]
fn empty_tokens_are_skipped() {
    let mut b = Batcher::new(base(50, None));
    let (runs, end) = drive(&mut b, &[b"", b"a", b""], &[]);
    assert_eq!(runs, vec![vec![b"a".to_vec()]]);
    assert_eq!(end, Action::Finish(0));
}

#[test]
fn too_large_token_aborts_without_running() {
    let mut b = Batcher::new(base(1000, Some(20)));
    let (runs, end) = drive(&mut b, &[b"a", &[b'x'; 30], b"b"], &[]);
    assert!(runs.is_empty());
    assert_eq!(end, Action::Abort(Error::TooLarge));
}

#[test]
fn token_that_never_fits_aborts() {
    let mut b = Batcher::new(base(30, None));
    let (runs, end) = drive(&mut b, &[&[b'x'; 15]], &[]);
    assert!(runs.is_empty());
    assert_eq!(end, Action::Abort(Error::InsufficientSpace));
}

#[test]
fn highest_failing_status_is_kept() {
    let mut b = Batcher::new(base(30, None));
    let exits = [Outcome::Exited(2), Outcome::Exited(1), Outcome::Exited(0)];
    let (runs, end) = drive(&mut b, &[b"a", b"b", b"c", b"d", b"e", b"f"], &exits);
    assert_eq!(runs.len(), 3);
    assert_eq!(end, Action::Finish(2));
}

#[test]
fn hard_stop_status_ends_the_run() {
    let mut b = Batcher::new(base(30, None));
    let (runs, end) = drive(&mut b, &[b"a", b"b", b"c", b"d"], &[Outcome::Exited(255)]);
    assert_eq!(runs.len(), 1);
    assert_eq!(end, Action::Finish(255));
}

#[test]
fn signal_ends_the_run_with_the_recorded_status() {
    let mut b = Batcher::new(base(30, None));
    let exits = [Outcome::Exited(3), Outcome::Signaled];
    let (runs, end) = drive(&mut b, &[b"a", b"b", b"c", b"d", b"e", b"f"], &exits);
    assert_eq!(runs.len(), 2);
    assert_eq!(end, Action::Finish(3));
}

#[test]
fn held_token_starts_the_next_batch() {
    let mut b = Batcher::new(base(30, None));
    assert_eq!(b.on_token(Some(b"a".to_vec())), Action::ReadToken);
    assert_eq!(b.on_token(Some(b"b".to_vec())), Action::ReadToken);
    assert_eq!(b.on_token(Some(b"c".to_vec())), Action::Run);
    assert_eq!(b.phase(), Phase::Running);
    assert_eq!(b.command().get_args(), vec![b"a".to_vec(), b"b".to_vec()]);
    assert_eq!(b.on_exit(Outcome::Exited(0)), Action::ReadToken);
    assert_eq!(b.command().get_args(), vec![b"c".to_vec()]);
    assert_eq!(b.on_token(None), Action::Run);
    assert_eq!(b.on_exit(Outcome::Exited(0)), Action::ReadToken);
    assert_eq!(b.on_token(None), Action::Finish(0));
}
