use cesso::board::Board;
use cesso::color::Color;
use cesso::eval::nnue::accumulator::Accumulator;
use cesso::eval::nnue::network::{Network, HIDDEN, NETWORK_BYTES, NUM_BUCKETS};
use cesso::eval::nnue::{evaluate, output_bucket};

fn put_i16(bytes: &mut [u8], value_index: usize, v: i16) {
    let [lo, hi] = v.to_le_bytes();
    bytes[2 * value_index] = lo;
    bytes[2 * value_index + 1] = hi;
}

const BIAS_AT: usize = 768 * HIDDEN;
const OUTPUT_AT: usize = 769 * HIDDEN;
const OUTPUT_BIAS_AT: usize = 785 * HIDDEN;

#[test]
fn network_file_must_have_exact_size() {
    assert!(Network::from_bytes(&vec![0u8; NETWORK_BYTES - 1]).is_none());
    assert!(Network::from_bytes(&vec![0u8; NETWORK_BYTES + 1]).is_none());
    assert!(Network::from_bytes(&vec![0u8; NETWORK_BYTES]).is_some());
}

#[test]
fn zero_network_evaluates_to_zero() {
    let net = Network::from_bytes(&vec![0u8; NETWORK_BYTES]).unwrap();
    assert_eq!(evaluate(&Board::starting_position(), &net), 0);
}

#[test]
fn output_bucket_counts_pieces() {
    assert_eq!(output_bucket(&Board::starting_position()), 7);
    let kings: Board = "4k3/8/8/8/8/8/8/4K3 w - - 0 1".parse().unwrap();
    assert_eq!(output_bucket(&kings), 0);
    let six: Board = "4k3/pp6/8/8/8/8/PP6/4K3 w - - 0 1".parse().unwrap();
    assert_eq!(output_bucket(&six), 1);
    assert!(output_bucket(&Board::starting_position()) < NUM_BUCKETS);
}

#[test]
fn forward_pass_dequantizes() {
    let mut bytes = vec![0u8; NETWORK_BYTES];
    // Every hidden unit starts at QA, so its activation is QA * QA = 65025.
    for j in 0..HIDDEN {
        put_i16(&mut bytes, BIAS_AT + j, 255);
    }
    // Bucket 7 (a full board) reads only the first unit of the side to move.
    put_i16(&mut bytes, OUTPUT_AT + 7 * 2 * HIDDEN, 1);
    let net = Network::from_bytes(&bytes).unwrap();
    // 65025 / 255 = 255; 255 * 400 = 102000; 102000 / (255 * 64) = 6.
    assert_eq!(evaluate(&Board::starting_position(), &net), 6);
    // The output bias is added before scaling: (255 + 16320) * 400 / 16320 = 406.
    put_i16(&mut bytes, OUTPUT_BIAS_AT + 7, 16320);
    let net = Network::from_bytes(&bytes).unwrap();
    assert_eq!(evaluate(&Board::starting_position(), &net), 406);
}

#[test]
fn accumulator_adds_and_removes_features() {
    let mut bytes = vec![0u8; NETWORK_BYTES];
    put_i16(&mut bytes, 5 * HIDDEN + 3, 7);
    put_i16(&mut bytes, 5 * HIDDEN + 4, -9);
    let net = Network::from_bytes(&bytes).unwrap();
    let mut acc = Accumulator { vals: vec![0i16; HIDDEN] };
    acc.add_feature(5, &net);
    assert_eq!(acc.vals[3], 7);
    assert_eq!(acc.vals[4], -9);
    assert_eq!(acc.vals[5], 0);
    acc.remove_feature(5, &net);
    assert!(acc.vals.iter().all(|&v| v == 0));
}

#[test]
fn refresh_sums_bias_and_present_features() {
    let mut bytes = vec![0u8; NETWORK_BYTES];
    put_i16(&mut bytes, BIAS_AT, 10);
    // White king on e1 from White's view: own king, 64 * 5 + 4 = 324.
    put_i16(&mut bytes, 324 * HIDDEN, 100);
    // The same king from Black's view: enemy king on the mirrored square, 384 + 320 + 60 = 764.
    put_i16(&mut bytes, 764 * HIDDEN, 1000);
    let net = Network::from_bytes(&bytes).unwrap();
    let board: Board = "4k3/8/8/8/8/8/8/4K3 w - - 0 1".parse().unwrap();
    let white = Accumulator::refresh(&board, Color::White, &net);
    let black = Accumulator::refresh(&board, Color::Black, &net);
    assert_eq!(white.vals[0], 110);
    assert_eq!(black.vals[0], 1010);
    assert_eq!(white.vals[1], 0);
}

#[test]
fn symmetric_position_scores_alike_for_both_sides() {
    // A small pseudo-random network: the start position seen by White with
    // White to move mirrors the one seen by Black with Black to move.
    let mut bytes = vec![0u8; NETWORK_BYTES];
    let mut state: u32 = 12345;
    for i in 0..(NETWORK_BYTES / 2 - 24) {
        state = state.wrapping_mul(1_103_515_245).wrapping_add(12_345);
        let v = ((state >> 16) % 7) as i16 - 3;
        put_i16(&mut bytes, i, v);
    }
    let net = Network::from_bytes(&bytes).unwrap();
    let white_to_move: Board = "rnbqkbnr/pppppppp/8/8/8/8/PPPPPPPP/RNBQKBNR w KQkq - 0 1".parse().unwrap();
    let black_to_move: Board = "rnbqkbnr/pppppppp/8/8/8/8/PPPPPPPP/RNBQKBNR b KQkq - 0 1".parse().unwrap();
    assert_eq!(evaluate(&white_to_move, &net), evaluate(&black_to_move, &net));
}
