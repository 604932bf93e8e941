use vstd::prelude::*;

pub mod angle;
pub mod angle_parse;
pub mod angle_laws;
pub mod bits;
pub mod channels;
pub mod command_queue;
pub mod engine_types;
pub mod engines;
pub mod gate;
pub mod gateable_types;
pub mod noise;
pub mod pauli;
pub mod pauli_stabilizer_string;
pub mod phase;
pub mod phir;
pub mod program_kind;
pub mod shot_statistics;
pub mod protocol;
pub mod protocol_laws;
pub mod reading_laws;
pub mod qsim;
pub mod sign;
pub mod stabilizer_code;
pub mod text;
pub mod text_map;
pub mod turn_word;
pub mod types;
pub mod vec_set;

verus! {

} // verus!
