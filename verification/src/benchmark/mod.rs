//! Benchmark helpers: text parsers and environment detection.
pub mod collectors;
pub mod parsing;
pub mod report;

pub use parsing::{
    aloop_playback_device, context_switch_counts, count_xruns_in_aplay_output, cpu_time_fields, parse_context_switches,
    parse_cpu_jiffies, parse_pcp_version, parse_pi_model, parse_proc_hwparams_period_size,
    parse_proc_hwparams_rate, parse_rss_kib,
};
