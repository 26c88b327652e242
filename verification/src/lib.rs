pub mod rng;
pub mod text;
pub mod args;
pub mod kv;
pub mod result;
pub mod config;
pub mod ycsb;
pub mod codegraph;
pub mod concurrent_mix;
pub mod deletes;
pub mod kv_table;
pub mod nonunique;
pub mod rt;
pub mod clock;
pub mod vacuum_stress;
pub mod moe_pgo;
pub mod vacuum_yield;
pub mod moe_resident;
pub mod partition_ticks;
pub mod delete_cost;
pub mod tatp;
pub mod linkbench;
pub mod speedtest;
pub mod tally;
pub mod agentcode;
pub mod fanout;
pub mod op_latency;
pub mod micro_layers;
pub mod paired;
