use cesso::board::Board;
use cesso::uci::command::{parse_command, Command};
use cesso::uci::error::UciError;

fn go(line: &str) -> cesso::uci::command::GoParams {
    match parse_command(line).unwrap() {
        Command::Go(params) => params,
        _ => panic!("expected Go"),
    }
}

#[test]
fn parse_uci() {
    assert!(matches!(parse_command("uci").unwrap(), Command::Uci));
}

#[test]
fn parse_isready() {
    assert!(matches!(parse_command("isready").unwrap(), Command::IsReady));
}

#[test]
fn parse_quit() {
    assert!(matches!(parse_command("quit").unwrap(), Command::Quit));
}

#[test]
fn parse_ucinewgame() {
    assert!(matches!(parse_command("ucinewgame").unwrap(), Command::UciNewGame));
}

#[test]
fn parse_position_startpos() {
    let cmd = parse_command("position startpos").unwrap();
    assert!(matches!(cmd, Command::Position(_)));
}

#[test]
fn parse_position_startpos_with_moves() {
    let cmd = parse_command("position startpos moves e2e4 e7e5").unwrap();
    match cmd {
        Command::Position(board) => {
            let expected: Board = "rnbqkbnr/pppp1ppp/8/4p3/4P3/8/PPPP1PPP/RNBQKBNR w KQkq e6 0 2".parse().unwrap();
            assert_eq!(board.to_fen(), expected.to_fen());
        },
        _ => panic!("expected Position"),
    }
}

#[test]
fn parse_position_fen() {
    let cmd = parse_command("position fen rnbqkbnr/pppppppp/8/8/4P3/8/PPPP1PPP/RNBQKBNR b KQkq e3 0 1").unwrap();
    assert!(matches!(cmd, Command::Position(_)));
}

#[test]
fn parse_position_castling_and_promotion_moves() {
    let cmd = parse_command("position fen r3k3/1P6/8/8/8/8/8/4K2R w Kq - 0 1 moves e1g1 a8d8 b7b8q").unwrap();
    match cmd {
        Command::Position(board) => {
            assert_eq!(board.to_fen(), "1Q1rk3/8/8/8/8/8/8/5RK1 b - - 0 2");
        },
        _ => panic!("expected Position"),
    }
}

#[test]
fn parse_position_illegal_move() {
    match parse_command("position startpos moves e2e5") {
        Err(UciError::InvalidMove { uci_move }) => assert_eq!(uci_move, "e2e5"),
        _ => panic!("expected InvalidMove"),
    }
}

#[test]
fn parse_go_depth() {
    assert_eq!(go("go depth 6").depth, Some(6));
}

#[test]
fn parse_go_bare_defaults() {
    let params = go("go");
    assert!(params.depth.is_none());
    assert!(params.wtime.is_none());
    assert!(!params.infinite);
    assert!(!params.ponder);
}

#[test]
fn parse_go_wtime_btime_winc_binc() {
    let params = go("go wtime 300000 btime 300000 winc 2000 binc 2000");
    assert_eq!(params.wtime, Some(300000));
    assert_eq!(params.btime, Some(300000));
    assert_eq!(params.winc, Some(2000));
    assert_eq!(params.binc, Some(2000));
}

#[test]
fn parse_go_movetime() {
    assert_eq!(go("go movetime 5000").movetime, Some(5000));
}

#[test]
fn parse_go_infinite() {
    assert!(go("go infinite").infinite);
}

#[test]
fn parse_go_ponder_with_time() {
    let params = go("go ponder wtime 300000 btime 300000");
    assert!(params.ponder);
    assert_eq!(params.wtime, Some(300000));
    assert_eq!(params.btime, Some(300000));
}

#[test]
fn parse_go_movestogo() {
    assert_eq!(go("go wtime 60000 btime 60000 movestogo 20").movestogo, Some(20));
}

#[test]
fn parse_go_nodes() {
    assert_eq!(go("go nodes 1000000").nodes, Some(1_000_000));
}

#[test]
fn parse_go_plus_sign_and_range() {
    assert_eq!(go("go depth +7").depth, Some(7));
    match parse_command("go depth 256") {
        Err(UciError::InvalidGoValue { param, value }) => {
            assert_eq!(param, "depth");
            assert_eq!(value, "256");
        },
        _ => panic!("expected InvalidGoValue"),
    }
}

#[test]
fn parse_ponderhit() {
    assert!(matches!(parse_command("ponderhit").unwrap(), Command::PonderHit));
}

#[test]
fn parse_go_missing_wtime_value() {
    match parse_command("go wtime") {
        Err(UciError::MissingGoValue { param }) => assert_eq!(param, "wtime"),
        _ => panic!("expected MissingGoValue"),
    }
}

#[test]
fn parse_go_invalid_depth_value() {
    assert!(parse_command("go depth abc").is_err());
}

#[test]
fn parse_unknown_command() {
    match parse_command("foobar baz").unwrap() {
        Command::Unknown(s) => assert_eq!(s, "foobar"),
        _ => panic!("expected Unknown"),
    }
}

#[test]
fn parse_empty_line() {
    let cmd = parse_command("").unwrap();
    assert!(matches!(cmd, Command::Unknown(_)));
}

#[test]
fn parse_position_missing_keyword() {
    assert!(matches!(parse_command("position"), Err(UciError::MalformedPosition)));
}

#[test]
fn parse_position_invalid_fen() {
    match parse_command("position fen invalid") {
        Err(UciError::InvalidFen { fen }) => assert_eq!(fen, "invalid"),
        _ => panic!("expected InvalidFen"),
    }
}

#[test]
fn parse_stop() {
    assert!(matches!(parse_command("stop").unwrap(), Command::Stop));
}
