use picoredsp::benchmark::{
    aloop_playback_device, count_xruns_in_aplay_output, parse_context_switches, parse_cpu_jiffies,
    parse_pcp_version, parse_pi_model, parse_proc_hwparams_period_size, parse_proc_hwparams_rate,
    parse_rss_kib,
};

#[test]
fn parsing_parse_rss_kib_extracts_vmrss_line() {
    let status = "Name:\tpicoredsp-controller\nVmRSS:\t 2048 kB\nVmPeak:\t 3000 kB\n";
    assert_eq!(parse_rss_kib(status), Some(2048));
}

#[test]
fn parsing_parse_rss_kib_returns_none_when_field_absent() {
    let status = "Name:\tfoo\nVmPeak:\t 3000 kB\n";
    assert_eq!(parse_rss_kib(status), None);
}

#[test]
fn parsing_parse_context_switches_sums_voluntary_and_nonvoluntary() {
    let status = "voluntary_ctxt_switches:\t100\nnonvoluntary_ctxt_switches:\t25\n";
    assert_eq!(parse_context_switches(status), Some(125));
}

#[test]
fn parsing_parse_context_switches_handles_missing_nonvoluntary() {
    let status = "voluntary_ctxt_switches:\t42\n";
    assert_eq!(parse_context_switches(status), Some(42));
}

#[test]
fn parsing_parse_context_switches_returns_none_when_both_absent() {
    let status = "Name:\tfoo\n";
    assert_eq!(parse_context_switches(status), None);
}

#[test]
fn parsing_parse_cpu_jiffies_extracts_utime_stime() {
    // Minimal /proc/<pid>/stat with a comm that does not contain spaces.
    let stat = "123 (picoredsp) S 1 123 123 0 -1 4194560 0 0 0 0 12 5 0 0 20 0 1 0 0 0 0 0 0 0 0 0 0 0 0 0 0 0 0 0 0 0 0 0 0 0 0 0 0 0 0 0 0 0 0 0";
    // utime = field 14 (0-based after ')') = index 11 → 12
    // stime = field 15 → index 12 → 5
    assert_eq!(parse_cpu_jiffies(stat), Some(17));
}

#[test]
fn parsing_parse_cpu_jiffies_handles_comm_with_spaces() {
    // comm = "(my prog)" — last ')' is after the comm
    let stat = "42 (my prog) S 1 42 42 0 -1 0 0 0 0 0 8 3 0 0 20 0 1 0 0 0 0";
    assert_eq!(parse_cpu_jiffies(stat), Some(11));
}

#[test]
fn parsing_count_xruns_in_aplay_output_counts_xrun_lines() {
    let output = "Playing raw data '/dev/zero' : Signed 16 bit ...\n\
                  aplay: xrun.c:380: ...\n\
                  aplay: xrun.c:380: ...\n\
                  Unrelated line\n";
    assert_eq!(count_xruns_in_aplay_output(output), 2);
}

#[test]
fn parsing_count_xruns_in_aplay_output_counts_overrun_and_underrun() {
    let output = "overrun!!!\nunderrun!!!\nnormal line\n";
    assert_eq!(count_xruns_in_aplay_output(output), 2);
}

#[test]
fn parsing_count_xruns_in_aplay_output_zero_when_clean() {
    let output = "Playing raw data...\nDone.\n";
    assert_eq!(count_xruns_in_aplay_output(output), 0);
}

#[test]
fn parsing_count_xruns_in_aplay_output_detects_verbose_xrun_lines() {
    // aplay -v emits lines like "aplay: xrun.c:380: read/write error, state = RUNNING"
    let output =
        "Playing raw data '/dev/zero' : Signed 16 bit Little Endian, Rate 44100 Hz, Stereo\n\
                  aplay: xrun.c:380: read/write error, state = RUNNING\n\
                  aplay: xrun.c:380: read/write error, state = RUNNING\n\
                  Aborted by signal Kill...\n";
    assert_eq!(count_xruns_in_aplay_output(output), 2);
}

#[test]
fn parsing_parse_pi_model_extracts_model_field() {
    let cpuinfo = "processor\t: 0\nModel\t\t: Raspberry Pi 4 Model B Rev 1.4\nSerial\t\t: 00000000deadbeef\n";
    assert_eq!(parse_pi_model(cpuinfo), "Raspberry Pi 4 Model B Rev 1.4");
}

#[test]
fn parsing_parse_pi_model_falls_back_to_hardware() {
    let cpuinfo = "processor\t: 0\nHardware\t: BCM2711\nRevision\t: c03114\n";
    assert_eq!(parse_pi_model(cpuinfo), "BCM2711");
}

#[test]
fn parsing_parse_pi_model_returns_unknown_when_absent() {
    let cpuinfo = "processor\t: 0\n";
    assert_eq!(parse_pi_model(cpuinfo), "unknown");
}

#[test]
fn parsing_parse_pcp_version_trims_first_nonempty_line() {
    let text = "\n  9.2.0  \nsome other content\n";
    assert_eq!(parse_pcp_version(text), "9.2.0");
}

#[test]
fn parsing_parse_pcp_version_returns_unknown_for_empty_input() {
    assert_eq!(parse_pcp_version(""), "unknown");
}

#[test]
fn parsing_aloop_playback_device_derives_playback_side() {
    assert_eq!(aloop_playback_device("hw:Loopback,0"), "hw:Loopback,1,0");
    assert_eq!(aloop_playback_device("hw:Loopback,0,0"), "hw:Loopback,1,0");
    assert_eq!(aloop_playback_device("hw:1,0"), "hw:1,1,0");
}

#[test]
fn parsing_parse_proc_hwparams_rate_and_period_size() {
    let hw_params = "access: MMAP_INTERLEAVED\n\
                     format: S16_LE\n\
                     subformat: STD\n\
                     channels: 2\n\
                     rate: 44100 (44100/1)\n\
                     period_size: 1024\n\
                     buffer_size: 4096\n";
    assert_eq!(parse_proc_hwparams_rate(hw_params), Some(44100));
    assert_eq!(parse_proc_hwparams_period_size(hw_params), Some(1024));
}

#[test]
fn parsing_parse_proc_hwparams_returns_none_when_fields_absent() {
    let hw_params = "state: PREPARED\n";
    assert_eq!(parse_proc_hwparams_rate(hw_params), None);
    assert_eq!(parse_proc_hwparams_period_size(hw_params), None);
}

#[test]
fn benchmark_parse_rss_kib_extracts_vmrss_line() {
    let status = "Name:\tpicoredsp-controller\nVmRSS:\t 2048 kB\nVmPeak:\t 3000 kB\n";
    assert_eq!(parse_rss_kib(status), Some(2048));
}

#[test]
fn benchmark_parse_rss_kib_returns_none_when_field_absent() {
    let status = "Name:\tfoo\nVmPeak:\t 3000 kB\n";
    assert_eq!(parse_rss_kib(status), None);
}

#[test]
fn benchmark_parse_context_switches_sums_voluntary_and_nonvoluntary() {
    let status = "voluntary_ctxt_switches:\t100\nnonvoluntary_ctxt_switches:\t25\n";
    assert_eq!(parse_context_switches(status), Some(125));
}

#[test]
fn benchmark_parse_context_switches_handles_missing_nonvoluntary() {
    let status = "voluntary_ctxt_switches:\t42\n";
    assert_eq!(parse_context_switches(status), Some(42));
}

#[test]
fn benchmark_parse_context_switches_returns_none_when_both_absent() {
    let status = "Name:\tfoo\n";
    assert_eq!(parse_context_switches(status), None);
}

#[test]
fn benchmark_parse_cpu_jiffies_extracts_utime_stime() {
    // Minimal /proc/<pid>/stat with a comm that does not contain spaces.
    let stat = "123 (picoredsp) S 1 123 123 0 -1 4194560 0 0 0 0 12 5 0 0 20 0 1 0 0 0 0 0 0 0 0 0 0 0 0 0 0 0 0 0 0 0 0 0 0 0 0 0 0 0 0 0 0 0 0 0";
    // utime = field 14 (0-based after ')') = index 11 → 12
    // stime = field 15 → index 12 → 5
    assert_eq!(parse_cpu_jiffies(stat), Some(17));
}

#[test]
fn benchmark_parse_cpu_jiffies_handles_comm_with_spaces() {
    // comm = "(my prog)" — last ')' is after the comm
    let stat = "42 (my prog) S 1 42 42 0 -1 0 0 0 0 0 8 3 0 0 20 0 1 0 0 0 0";
    assert_eq!(parse_cpu_jiffies(stat), Some(11));
}

#[test]
fn benchmark_count_xruns_in_aplay_output_counts_xrun_lines() {
    let output = "Playing raw data '/dev/zero' : Signed 16 bit ...\n\
                  aplay: xrun.c:380: ...\n\
                  aplay: xrun.c:380: ...\n\
                  Unrelated line\n";
    assert_eq!(count_xruns_in_aplay_output(output), 2);
}

#[test]
fn benchmark_count_xruns_in_aplay_output_counts_overrun_and_underrun() {
    let output = "overrun!!!\nunderrun!!!\nnormal line\n";
    assert_eq!(count_xruns_in_aplay_output(output), 2);
}

#[test]
fn benchmark_count_xruns_in_aplay_output_zero_when_clean() {
    let output = "Playing raw data...\nDone.\n";
    assert_eq!(count_xruns_in_aplay_output(output), 0);
}

#[test]
fn benchmark_count_xruns_in_aplay_output_detects_verbose_xrun_lines() {
    // aplay -v emits lines like "aplay: xrun.c:380: read/write error, state = RUNNING"
    let output =
        "Playing raw data '/dev/zero' : Signed 16 bit Little Endian, Rate 44100 Hz, Stereo\n\
                  aplay: xrun.c:380: read/write error, state = RUNNING\n\
                  aplay: xrun.c:380: read/write error, state = RUNNING\n\
                  Aborted by signal Kill...\n";
    assert_eq!(count_xruns_in_aplay_output(output), 2);
}

#[test]
fn benchmark_parse_pi_model_extracts_model_field() {
    let cpuinfo = "processor\t: 0\nModel\t\t: Raspberry Pi 4 Model B Rev 1.4\nSerial\t\t: 00000000deadbeef\n";
    assert_eq!(parse_pi_model(cpuinfo), "Raspberry Pi 4 Model B Rev 1.4");
}

#[test]
fn benchmark_parse_pi_model_falls_back_to_hardware() {
    let cpuinfo = "processor\t: 0\nHardware\t: BCM2711\nRevision\t: c03114\n";
    assert_eq!(parse_pi_model(cpuinfo), "BCM2711");
}

#[test]
fn benchmark_parse_pi_model_returns_unknown_when_absent() {
    let cpuinfo = "processor\t: 0\n";
    assert_eq!(parse_pi_model(cpuinfo), "unknown");
}

#[test]
fn benchmark_parse_pcp_version_trims_first_nonempty_line() {
    let text = "\n  9.2.0  \nsome other content\n";
    assert_eq!(parse_pcp_version(text), "9.2.0");
}

#[test]
fn benchmark_parse_pcp_version_returns_unknown_for_empty_input() {
    assert_eq!(parse_pcp_version(""), "unknown");
}

#[test]
fn benchmark_aloop_playback_device_derives_playback_side() {
    assert_eq!(aloop_playback_device("hw:Loopback,0"), "hw:Loopback,1,0");
    assert_eq!(aloop_playback_device("hw:Loopback,0,0"), "hw:Loopback,1,0");
    assert_eq!(aloop_playback_device("hw:1,0"), "hw:1,1,0");
}

#[test]
fn benchmark_parse_proc_hwparams_rate_and_period_size() {
    let hw_params = "access: MMAP_INTERLEAVED\n\
                     format: S16_LE\n\
                     subformat: STD\n\
                     channels: 2\n\
                     rate: 44100 (44100/1)\n\
                     period_size: 1024\n\
                     buffer_size: 4096\n";
    assert_eq!(parse_proc_hwparams_rate(hw_params), Some(44100));
    assert_eq!(parse_proc_hwparams_period_size(hw_params), Some(1024));
}

#[test]
fn benchmark_parse_proc_hwparams_returns_none_when_fields_absent() {
    let hw_params = "state: PREPARED\n";
    assert_eq!(parse_proc_hwparams_rate(hw_params), None);
    assert_eq!(parse_proc_hwparams_period_size(hw_params), None);
}
