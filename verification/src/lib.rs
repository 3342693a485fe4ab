pub mod agenda;
pub mod assignment;
pub mod authority;
pub mod backend;
pub mod bootstrap;
pub mod campaign_config;
pub mod checkpoint;
pub mod claude_agent;
pub mod cli;
pub mod codex;
pub mod codex_home;
pub mod codex_server;
pub mod codex_stream;
pub mod codex_turn;
pub mod dashboard;
pub mod dry_run;
pub mod effect;
pub mod failure;
pub mod fingerprints;
pub mod frame;
pub mod frontier;
pub mod git;
pub mod json;
pub mod launch;
pub mod launcher;
pub mod markers;
pub mod model_confusions;
pub mod names;
pub mod numeral;
pub mod openspec;
pub mod path;
pub mod planning;
pub mod process;
pub mod prompts;
pub mod protocol;
pub mod quoting;
pub mod readback;
pub mod rollback;
pub mod screen;
pub mod stage;
pub mod stages;
pub mod startup;
pub mod state;
pub mod stream;
pub mod table;
pub mod text;
pub mod text_laws;
pub mod tokens;
pub mod upkeep;
pub mod workflow;
