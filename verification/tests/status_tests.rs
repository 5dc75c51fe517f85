use dwmbar::bar::status_line;
use dwmbar::component::{
    battery, find_containing, headset_battery, headset_device, song_info, sound_volume,
    truncate_chars,
};
use dwmbar::cpu::{percent_string, Cpu, CpuStat};
use dwmbar::datetime::{date_and_time, ClockReading, DateTime};
use dwmbar::headset_battery::{AccessoryAction, AccessoryEvent, HeadsetBattery};
use dwmbar::text::{
    collect_digits, contains_str, join_strs, parse_u64, split_str, str_eq, trim_str,
    u64_to_pad2, u64_to_string,
};
use dwmbar::widget::{plain_block, Block};

const DIV: &str = "     |     ";
const RESET: &str = "^d^";

#[test]
fn render_without_colors() {
    let b = Block::new("I", "T");
    assert_eq!(b.render(), "I T");
}

#[test]
fn render_plain_style() {
    let b = plain_block("I", "T");
    assert_eq!(b.render(), "#EAEAEAI #EAEAEAT");
}

#[test]
fn icon_color_falls_back_to_text_fg() {
    let b = Block::new("I", "T").text_fg("#ABC");
    assert_eq!(b.render(), "#ABCI #ABCT");
}

#[test]
fn icon_color_falls_back_channel_for_channel() {
    let b = Block::new("I", "T").text_color("#F0F0F0", "#0F0F0F");
    assert_eq!(b.render(), "#0F0F0F#F0F0F0I #0F0F0F#F0F0F0T");
}

#[test]
fn explicit_icon_color_is_kept() {
    let b = Block::new("I", "T").icon_fg("#111111").text_fg("#222222");
    assert_eq!(b.render(), "#111111I #222222T");
}

#[test]
fn song_block_colors() {
    let b = Block::new("I", "T")
        .icon_color("#EAEAEA", "#0C0C0C")
        .text_color("#EAEAEA", "#171617");
    assert_eq!(b.render(), "#0C0C0C#EAEAEAI #171617#EAEAEAT");
}

#[test]
fn line_of_no_samples_is_empty() {
    assert_eq!(status_line(None, None, None, None, None, None), "");
}

#[test]
fn line_of_one_sample_has_no_divider() {
    let b = Block::new("I", "T");
    let line = status_line(None, None, None, Some(b), None, None);
    assert_eq!(line, format!("I T{}", RESET));
}

#[test]
fn line_filters_absences_and_keeps_order() {
    let b1 = Block::new("A", "1");
    let b2 = Block::new("B", "2");
    let b3 = Block::new("C", "3");
    let line = status_line(None, Some(b1), None, Some(b2), None, Some(b3));
    assert_eq!(
        line,
        format!("A 1{r}{d}B 2{r}{d}C 3{r}", r = RESET, d = DIV)
    );
}

#[test]
fn line_with_all_six_present() {
    let line = status_line(
        Some(Block::new("S", "s")),
        Some(Block::new("V", "v")),
        Some(Block::new("H", "h")),
        Some(Block::new("P", "p")),
        Some(Block::new("C", "c")),
        Some(Block::new("K", "k")),
    );
    let blocks = ["S s", "V v", "H h", "P p", "C c", "K k"];
    let expected = blocks
        .iter()
        .map(|b| format!("{}{}", b, RESET))
        .collect::<Vec<_>>()
        .join(DIV);
    assert_eq!(line, expected);
}

#[test]
fn line_order_is_fixed_not_arrival_order() {
    let volume = Block::new("V", "v");
    let clock = Block::new("K", "k");
    let line = status_line(None, Some(volume), None, None, None, Some(clock));
    let v_at = line.find("V v").unwrap();
    let k_at = line.find("K k").unwrap();
    assert!(v_at < k_at);
}

#[test]
fn cpu_first_call_is_absent() {
    let mut cpu = Cpu::new("\u{fb19}");
    let sample = cpu.update("cpu  10 0 10 70 10 0 0 0\n");
    assert!(sample.is_none());
}

#[test]
fn cpu_two_snapshots_give_thirty_percent() {
    let mut cpu = Cpu::new("\u{fb19}");
    assert!(cpu.update("cpu  10 0 10 70 10 0 0 0\n").is_none());
    let sample = cpu.update("cpu  13 0 10 77 10 0 0 0\n").unwrap();
    assert_eq!(sample.text, "30.00 %");
    assert_eq!(sample.icon, "\u{fb19}");
}

#[test]
fn cpu_short_counter_line_is_absent() {
    let mut cpu = Cpu::new("C");
    assert!(cpu.update("cpu 1 2 3\n").is_none());
    assert!(cpu.update("cpu 1 2 3\n").is_none());
}

#[test]
fn cpu_garbage_field_is_absent() {
    let mut cpu = Cpu::new("C");
    assert!(cpu.update("cpu 1 2 x 4 5 6 7 8\n").is_none());
}

#[test]
fn cpu_missing_line_is_absent() {
    let mut cpu = Cpu::new("C");
    assert!(cpu.update("intr 1 2 3\n").is_none());
}

#[test]
fn cpu_zero_window_is_absent() {
    let mut cpu = Cpu::new("C");
    let text = "cpu  10 0 10 70 10 0 0 0\n";
    assert!(cpu.update(text).is_none());
    assert!(cpu.update(text).is_none());
}

#[test]
fn cpu_counter_reset_is_absent() {
    let mut cpu = Cpu::new("C");
    assert!(cpu.update("cpu  13 0 10 77 10 0 0 0\n").is_none());
    assert!(cpu.update("cpu  10 0 10 70 10 0 0 0\n").is_none());
}

#[test]
fn cpu_recovers_after_reset() {
    let mut cpu = Cpu::new("C");
    assert!(cpu.update("cpu  13 0 10 77 10 0 0 0\n").is_none());
    assert!(cpu.update("cpu  10 0 10 70 10 0 0 0\n").is_none());
    let sample = cpu.update("cpu  13 0 10 77 10 0 0 0\n").unwrap();
    assert_eq!(sample.text, "30.00 %");
}

#[test]
fn cpu_percentage_rounds_to_nearest() {
    let mut cpu = Cpu::new("C");
    assert!(cpu.update("cpu 0 0 0 0 0 0 0 0\n").is_none());
    let sample = cpu.update("cpu 2 0 0 1 0 0 0 0\n").unwrap();
    assert_eq!(sample.text, "66.67 %");
}

#[test]
fn cpu_counter_line_may_be_tab_separated() {
    let stat = CpuStat::parse("cpu\t1\t1\t1\t1\t1\t1\t1\t1\n").unwrap();
    assert_eq!(stat.total_ticks, 8);
    assert_eq!(stat.active_ticks, 6);
}

#[test]
fn cpu_stat_parse_takes_first_cpu_line() {
    let text = "foo 9 9 9\ncpu  1 1 1 1 1 1 1 1\ncpu0 5 5 5 5 5 5 5 5\n";
    let stat = CpuStat::parse(text).unwrap();
    assert_eq!(stat.total_ticks, 8);
    assert_eq!(stat.active_ticks, 6);
}

#[test]
fn percent_rendering_pads_fraction() {
    assert_eq!(percent_string(3000), "30.00 %");
    assert_eq!(percent_string(5), "0.05 %");
    assert_eq!(percent_string(10000), "100.00 %");
    assert_eq!(percent_string(123), "1.23 %");
}

#[test]
fn battery_discharging_selects_discharge_icon() {
    let b = battery("73", "Discharging").unwrap();
    assert_eq!(b.icon, "\u{f240}");
    assert_eq!(b.text, "73 %");
}

#[test]
fn battery_any_other_status_selects_charge_icon() {
    for status in ["Charging", "", "discharging", "Full", "Discharging "] {
        let b = battery("73", status).unwrap();
        assert_eq!(b.icon, "\u{f584}");
    }
}

#[test]
fn battery_unparsable_capacity_is_absent() {
    assert!(battery("7a3", "Discharging").is_none());
    assert!(battery("", "Discharging").is_none());
    assert!(battery("-5", "Discharging").is_none());
}

#[test]
fn battery_capacity_keeps_its_collaborator_domain() {
    let b = battery("2147483647", "Charging").unwrap();
    assert_eq!(b.text, "2147483647 %");
    assert!(battery("2147483648", "Charging").is_none());
}

#[test]
fn volume_trims_and_appends_percent() {
    let b = sound_volume("42\n").unwrap();
    assert_eq!(b.icon, "\u{f028}");
    assert_eq!(b.text, "42%");
}

#[test]
fn headset_device_takes_first_matching_line() {
    let out = "path1 headset a\nother\npath2 headset b\ntrailer";
    assert_eq!(headset_device(out).unwrap(), "path1 headset a");
}

#[test]
fn headset_device_single_match() {
    let out = "a headset\nb headset";
    assert_eq!(headset_device(out).unwrap(), "a headset");
}

#[test]
fn headset_device_absent_without_match() {
    assert!(headset_device("mouse\nkeyboard\n").is_none());
    assert!(headset_device("").is_none());
}

#[test]
fn headset_battery_collects_percentage_digits() {
    let info = "device x\n  percentage:   85%\n  icon: foo\n";
    let b = headset_battery(info).unwrap();
    assert_eq!(b.icon, "\u{f7cc}");
    assert_eq!(b.text, "85%");
}

#[test]
fn headset_battery_takes_last_percentage_line() {
    let info = "percentage: 10%\npercentage: 90%\n";
    let b = headset_battery(info).unwrap();
    assert_eq!(b.text, "90%");
}

#[test]
fn headset_battery_without_digits_is_absent() {
    assert!(headset_battery("percentage: unknown\n").is_none());
    assert!(headset_battery("no such line\n").is_none());
}

#[test]
fn find_containing_takes_first_match() {
    let items = vec![
        "org.freedesktop.DBus".to_string(),
        "org.mpris.MediaPlayer2.a".to_string(),
        "org.mpris.MediaPlayer2.b".to_string(),
    ];
    assert_eq!(find_containing(&items, "mpris"), Some(1));
    assert_eq!(find_containing(&items, "nothing"), None);
}

#[test]
fn song_short_text_passes_through() {
    let artists = vec!["A".to_string()];
    let b = song_info(&artists, "T").unwrap();
    assert_eq!(b.icon, " \u{f885}");
    assert_eq!(b.text, " A - T ");
}

#[test]
fn song_without_artist_is_anonymous() {
    let artists: Vec<String> = Vec::new();
    let b = song_info(&artists, "T").unwrap();
    assert_eq!(b.text, " Anonymous - T ");
}

#[test]
fn song_artists_join_with_spaces() {
    let artists = vec!["A".to_string(), "B".to_string()];
    let b = song_info(&artists, "T").unwrap();
    assert_eq!(b.text, " A B - T ");
}

#[test]
fn song_long_text_is_cut_to_budget_with_ellipsis() {
    let artists = vec!["Someone".to_string()];
    let title = "a very long title that overflows the fixed budget";
    let b = song_info(&artists, title).unwrap();
    let full = format!(" {} - {} ", "Someone", title);
    let expected: String = full.chars().take(40).collect::<String>() + "...";
    assert_eq!(b.text, expected);
    assert_eq!(b.text.chars().count(), 43);
}

#[test]
fn song_text_at_budget_is_unchanged() {
    let artists = vec!["A".to_string()];
    let title = "x".repeat(34);
    let b = song_info(&artists, &title).unwrap();
    let full = format!(" A - {} ", title);
    assert_eq!(full.chars().count(), 40);
    assert_eq!(b.text, full);
}

#[test]
fn truncate_boundary_cases() {
    assert_eq!(truncate_chars("abcd", 4), "abcd");
    assert_eq!(truncate_chars("abcde", 4), "abcd...");
    assert_eq!(truncate_chars("", 0), "");
}

#[test]
fn poller_starts_unbound_and_discovers() {
    let poller = HeadsetBattery::new();
    assert!(matches!(poller.next_action(), AccessoryAction::Discover));
    assert!(poller.current().is_none());
}

#[test]
fn poller_discovery_failure_publishes_absence() {
    let mut poller = HeadsetBattery::new();
    let out = poller.step(AccessoryEvent::DiscoverFailed);
    assert!(matches!(out, Some(None)));
    assert!(matches!(poller.next_action(), AccessoryAction::Discover));
}

#[test]
fn poller_reads_after_discovery() {
    let mut poller = HeadsetBattery::new();
    assert!(poller.step(AccessoryEvent::DiscoverOk).is_none());
    assert!(matches!(poller.next_action(), AccessoryAction::ReadCharge));
    let out = poller.step(AccessoryEvent::ReadOk(50)).unwrap().unwrap();
    assert_eq!(out.text, "50%");
    assert_eq!(out.icon, "\u{f7cc}");
    assert_eq!(poller.current().unwrap().text, "50%");
}

#[test]
fn poller_recovers_from_failed_read() {
    let mut poller = HeadsetBattery::new();
    assert!(poller.step(AccessoryEvent::DiscoverOk).is_none());
    assert!(poller.step(AccessoryEvent::ReadOk(50)).is_some());
    let out = poller.step(AccessoryEvent::ReadFailed);
    assert!(matches!(out, Some(None)));
    assert!(poller.current().is_none());
    assert!(matches!(poller.next_action(), AccessoryAction::Discover));
    assert!(poller.step(AccessoryEvent::DiscoverOk).is_none());
    let out = poller.step(AccessoryEvent::ReadOk(75)).unwrap().unwrap();
    assert_eq!(out.text, "75%");
}

#[test]
fn clock_renders_fixed_format() {
    let source = DateTime::new("\u{f5ef}");
    let reading = ClockReading { month: 10, day: 5, hour: 16, minute: 5 };
    let b = source.render(reading);
    assert_eq!(b.text, "October/05 04:05 PM");
    assert_eq!(b.icon, "\u{f5ef}");
}

#[test]
fn clock_midnight_and_noon() {
    let source = DateTime::new("K");
    let midnight = ClockReading { month: 1, day: 1, hour: 0, minute: 0 };
    assert_eq!(source.render(midnight).text, "January/01 12:00 AM");
    let noon = ClockReading { month: 6, day: 30, hour: 12, minute: 59 };
    assert_eq!(source.render(noon).text, "June/30 12:59 PM");
}

#[test]
fn clock_source_is_always_present() {
    assert!(date_and_time().is_some());
}

#[test]
fn parse_u64_exact_cases() {
    assert_eq!(parse_u64("0"), Some(0));
    assert_eq!(parse_u64("12345"), Some(12345));
    assert_eq!(parse_u64(""), None);
    assert_eq!(parse_u64("1a"), None);
    assert_eq!(parse_u64(" 1"), None);
    assert_eq!(parse_u64("18446744073709551615"), Some(u64::MAX));
    assert_eq!(parse_u64("18446744073709551616"), None);
}

#[test]
fn decimal_rendering_cases() {
    assert_eq!(u64_to_string(0), "0");
    assert_eq!(u64_to_string(105), "105");
    assert_eq!(u64_to_pad2(7), "07");
    assert_eq!(u64_to_pad2(42), "42");
}

#[test]
fn text_helpers() {
    assert_eq!(trim_str("  a b\t\n"), "a b");
    assert_eq!(trim_str("\n\t "), "");
    assert_eq!(trim_str("\u{a0}x\u{2003}"), "x");
    assert!(str_eq("abc", "abc"));
    assert!(!str_eq("abc", "abd"));
    assert!(contains_str("one headset here", "headset"));
    assert!(!contains_str("nothing", "headset"));
    assert_eq!(collect_digits("a1b23c"), "123");
    let parts = split_str("a,,b", ',');
    assert_eq!(parts, vec!["a", "", "b"]);
    let joined = join_strs(&vec!["a".to_string(), "b".to_string()], " ");
    assert_eq!(joined, "a b");
}

#[test]
fn end_to_end_dry_run_line() {
    let mut cpu = Cpu::new("\u{fb19}");
    assert!(cpu.update("cpu 10 0 10 70 10 0 0 0\n").is_none());
    let cpu_block = cpu.update("cpu 13 0 10 77 10 0 0 0\n");
    let power_block = battery("73", "Discharging");
    let volume_block = sound_volume("42\n");
    let clock_block = Some(
        DateTime::default().render(ClockReading { month: 10, day: 11, hour: 16, minute: 5 }),
    );
    let line = status_line(None, volume_block, None, power_block, cpu_block, clock_block);
    let expected = format!(
        "#EAEAEA\u{f028} #EAEAEA42%{r}{d}#EAEAEA\u{f240} #EAEAEA73 %{r}{d}#EAEAEA\u{fb19} #EAEAEA30.00 %{r}{d}#EAEAEA\u{f5ef} #EAEAEAOctober/11 04:05 PM{r}",
        r = RESET,
        d = DIV
    );
    assert_eq!(line, expected);
}
