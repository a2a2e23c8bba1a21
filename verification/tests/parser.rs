use quake3a::parser::{kill_from_groups, LineParser};
use quake3a::{CauseOfDeath, Error, KillEntry, KillLog, LogEntry};

fn parse_line(line: &str) -> Option<Result<LogEntry, Error>> {
    LineParser::new().parse_line(line)
}

/// Cuts a text into its lines, each with its line end, as a line reader
/// hands them out.
fn lines(text: &str) -> Vec<String> {
    text.split_inclusive('\n').map(String::from).collect()
}

fn groups(items: &[Option<&str>]) -> Vec<Option<String>> {
    items.iter().map(|item| item.map(String::from)).collect()
}

#[test]
fn empty_log() {
    let mut kill_log = KillLog::new(lines(""));

    assert!(kill_log.next().is_none());
}

#[test]
fn parse_init_game_entry() {
    let mut kill_log = KillLog::new(lines(
        r"  0:00 InitGame: \sv_floodProtect\1\sv_maxPing\0\sv_minPing\0\sv_maxRate\10000\sv_minRate\0\sv_hostname\Code Miner Server\g_gametype\0\sv_privateClients\2\sv_maxclients\16\sv_allowDownload\0\dmflags\0\fraglimit\20\timelimit\15\g_maxGameClients\0\capturelimit\8\version\ioq3 1.36 linux-x86_64 Apr 12 ",
    ));

    assert_eq!(kill_log.next().unwrap().unwrap(), LogEntry::InitGame);
    assert!(kill_log.next().is_none());
}

#[test]
fn parse_kill_entry() {
    let mut kill_log = KillLog::new(lines(
        r"  2:11 Kill: 2 4 6: Dono da Bola killed Zeh by MOD_ROCKET",
    ));

    assert_eq!(
        kill_log.next().unwrap().unwrap(),
        LogEntry::Kill(KillEntry::new(
            "Dono da Bola",
            "Zeh",
            CauseOfDeath::MOD_ROCKET,
        ))
    );
    assert!(kill_log.next().is_none());
}

#[test]
fn parse_skip_invalid_entry() {
    let mut kill_log = KillLog::new(lines(
        r" 26  0:00 ------------------------------------------------------------",
    ));

    assert!(kill_log.next().is_none());
}

#[test]
fn line_parser_reads_many_lines() {
    let parser = LineParser::new();
    for minute in 0..300 {
        let start = format!("{:3}:00 InitGame: \\sv_floodProtect\\1", minute);
        assert_eq!(parser.parse_line(&start), Some(Ok(LogEntry::InitGame)));
        let kill = format!("{:3}:30 Kill: 2 3 7: p{} killed q{} by MOD_SHOTGUN", minute, minute, minute + 1);
        assert_eq!(
            parser.parse_line(&kill),
            Some(Ok(LogEntry::Kill(KillEntry::new(
                &format!("p{}", minute),
                &format!("q{}", minute + 1),
                CauseOfDeath::MOD_SHOTGUN,
            ))))
        );
        let other = format!("{:3}:45 Item: 2 weapon_rocketlauncher", minute);
        assert_eq!(parser.parse_line(&other), None);
    }
}

#[test]
fn parse_line_reads_match_start() {
    assert_eq!(parse_line("  0:00 InitGame: ..."), Some(Ok(LogEntry::InitGame)));
    assert_eq!(parse_line("0:00 InitGame:"), Some(Ok(LogEntry::InitGame)));
    assert_eq!(parse_line("981:13 InitGame: \\sv_floodProtect\\1\n"), Some(Ok(LogEntry::InitGame)));
}

#[test]
fn parse_line_takes_any_blanks_before_the_time() {
    assert_eq!(parse_line("\t \t12:34 InitGame: x"), Some(Ok(LogEntry::InitGame)));
    assert_eq!(parse_line("            7:5 InitGame:"), Some(Ok(LogEntry::InitGame)));
    assert_eq!(
        parse_line("\t1:2 Kill: 10 20 30: a killed b by MOD_CRUSH"),
        Some(Ok(LogEntry::Kill(KillEntry::new("a", "b", CauseOfDeath::MOD_CRUSH))))
    );
}

#[test]
fn parse_line_wants_digits_on_both_sides_of_the_time() {
    assert_eq!(parse_line(" :00 InitGame:"), None);
    assert_eq!(parse_line(" 0: InitGame:"), None);
    assert_eq!(parse_line(" 0.00 InitGame:"), None);
    assert_eq!(parse_line(" a:bc InitGame:"), None);
    assert_eq!(parse_line(" 1:2 Kill: x 4 6: a killed b by MOD_CRUSH"), None);
}

#[test]
fn parse_line_stops_the_token_at_a_blank() {
    assert_eq!(
        parse_line("  2:11 Kill: 2 4 6: Dono da Bola killed Zeh by MOD_ROCKET\r\n"),
        Some(Ok(LogEntry::Kill(KillEntry::new(
            "Dono da Bola",
            "Zeh",
            CauseOfDeath::MOD_ROCKET,
        ))))
    );
    assert_eq!(
        parse_line("  2:11 Kill: 2 4 6: Dono da Bola killed Zeh by MOD_ROCKET and more"),
        Some(Ok(LogEntry::Kill(KillEntry::new(
            "Dono da Bola",
            "Zeh",
            CauseOfDeath::MOD_ROCKET,
        ))))
    );
}

#[test]
fn parse_line_wants_the_colon_after_init_game() {
    assert_eq!(parse_line("  0:00 InitGame"), None);
    assert_eq!(parse_line("  0:00 initgame:"), None);
    assert_eq!(parse_line("InitGame: no time"), None);
    assert_eq!(parse_line("  0:00  InitGame:"), None);
}

#[test]
fn parse_line_reads_kill_with_line_end() {
    assert_eq!(
        parse_line(" 20:54 Kill: 1022 2 22: <world> killed Isgalamido by MOD_TRIGGER_HURT\n"),
        Some(Ok(LogEntry::Kill(KillEntry::new(
            "<world>",
            "Isgalamido",
            CauseOfDeath::MOD_TRIGGER_HURT,
        ))))
    );
}

#[test]
fn parse_line_passes_over_other_lines() {
    assert_eq!(parse_line(""), None);
    assert_eq!(parse_line("\n"), None);
    assert_eq!(parse_line(" 20:34 ClientConnect: 2"), None);
    assert_eq!(parse_line(" 20:37 ClientUserinfoChanged: 2 n\\Isgalamido\\t\\0"), None);
    assert_eq!(parse_line(" 21:07 Item: 2 weapon_rocketlauncher"), None);
    assert_eq!(parse_line("  1:47 ShutdownGame:"), None);
    assert_eq!(parse_line("# a comment"), None);
    // A kill needs its three numbers, both names and a cause.
    assert_eq!(parse_line("  2:11 Kill: 2 4: Dono da Bola killed Zeh by MOD_ROCKET"), None);
    assert_eq!(parse_line("  2:11 Kill: 2 4 6: Dono da Bola killed Zeh"), None);
    assert_eq!(parse_line("  2:11 Kill: 2 4 6:  killed Zeh by MOD_ROCKET"), None);
}

#[test]
fn parse_line_rejects_unknown_cause() {
    assert_eq!(
        parse_line("  2:11 Kill: 2 4 6: Dono da Bola killed Zeh by MOD_BANANA"),
        Some(Err(Error::InvalidCauseOfDeath(String::from("MOD_BANANA"))))
    );
    // Tokens are case-sensitive.
    assert_eq!(
        parse_line("  2:11 Kill: 2 4 6: Dono da Bola killed Zeh by mod_rocket"),
        Some(Err(Error::InvalidCauseOfDeath(String::from("mod_rocket"))))
    );
    // The token is all that follows " by " up to the next blank.
    assert_eq!(
        parse_line("  2:11 Kill: 2 4 6: Dono da Bola killed Zeh by MOD_ROCKETS"),
        Some(Err(Error::InvalidCauseOfDeath(String::from("MOD_ROCKETS"))))
    );
}

#[test]
fn parse_line_splits_names_greedily() {
    // A name that holds " killed " moves the split to the last " killed ".
    assert_eq!(
        parse_line("  3:00 Kill: 2 3 7: A killed B killed C by MOD_SHOTGUN"),
        Some(Ok(LogEntry::Kill(KillEntry::new(
            "A killed B",
            "C",
            CauseOfDeath::MOD_SHOTGUN,
        ))))
    );
    // A name that holds " by " moves the split to the last " by ".
    assert_eq!(
        parse_line("  3:00 Kill: 2 3 7: A killed B by C by MOD_RAILGUN"),
        Some(Ok(LogEntry::Kill(KillEntry::new(
            "A",
            "B by C",
            CauseOfDeath::MOD_RAILGUN,
        ))))
    );
}

#[test]
fn parse_line_keeps_blanks_in_names() {
    assert_eq!(
        parse_line("  3:00 Kill: 2 3 7:   killed  Oootsimo  by MOD_MACHINEGUN"),
        Some(Ok(LogEntry::Kill(KillEntry::new(
            " ",
            " Oootsimo ",
            CauseOfDeath::MOD_MACHINEGUN,
        ))))
    );
}

#[test]
fn kill_from_groups_builds_entry() {
    let found = groups(&[
        Some("  2:11 Kill: 2 4 6: Dono da Bola killed Zeh by MOD_ROCKET"),
        Some("Dono da Bola"),
        Some("Zeh"),
        Some("MOD_ROCKET"),
    ]);
    assert_eq!(
        kill_from_groups(&found),
        Some(Ok(LogEntry::Kill(KillEntry::new(
            "Dono da Bola",
            "Zeh",
            CauseOfDeath::MOD_ROCKET,
        ))))
    );
}

#[test]
fn kill_from_groups_keeps_bad_token() {
    let found = groups(&[Some("all"), Some("a"), Some("b"), Some("MOD_NOPE")]);
    assert_eq!(
        kill_from_groups(&found),
        Some(Err(Error::InvalidCauseOfDeath(String::from("MOD_NOPE"))))
    );
}

#[test]
fn kill_from_groups_wants_three_groups() {
    assert_eq!(kill_from_groups(&groups(&[])), None);
    assert_eq!(kill_from_groups(&groups(&[Some("all"), Some("a"), Some("b")])), None);
    assert_eq!(
        kill_from_groups(&groups(&[Some("all"), None, Some("b"), Some("MOD_ROCKET")])),
        None
    );
    assert_eq!(
        kill_from_groups(&groups(&[Some("all"), Some("a"), None, Some("MOD_ROCKET")])),
        None
    );
    assert_eq!(kill_from_groups(&groups(&[Some("all"), Some("a"), Some("b"), None])), None);
}

#[test]
fn kill_log_yields_entries_in_order() {
    let mut kill_log = KillLog::new(lines(
        "  0:00 ------------------------------------------------------------\n\
         \x20 0:00 InitGame: \\sv_floodProtect\\1\n\
         \x20 0:25 ClientConnect: 2\n\
         \x20 0:27 Kill: 1022 2 22: <world> killed Isgalamido by MOD_TRIGGER_HURT\n\
         \x20 1:08 Kill: 3 2 6: Isgalamido killed Mocinha by MOD_ROCKET\n\
         \x20 1:47 ShutdownGame:\n\
         \x20 1:47 InitGame: \\sv_floodProtect\\1\n",
    ));

    assert_eq!(kill_log.next(), Some(Ok(LogEntry::InitGame)));
    assert_eq!(
        kill_log.next(),
        Some(Ok(LogEntry::Kill(KillEntry::new(
            "<world>",
            "Isgalamido",
            CauseOfDeath::MOD_TRIGGER_HURT,
        ))))
    );
    assert_eq!(
        kill_log.next(),
        Some(Ok(LogEntry::Kill(KillEntry::new(
            "Isgalamido",
            "Mocinha",
            CauseOfDeath::MOD_ROCKET,
        ))))
    );
    assert_eq!(kill_log.next(), Some(Ok(LogEntry::InitGame)));
    assert_eq!(kill_log.next(), None);
    assert_eq!(kill_log.next(), None);
}

#[test]
fn kill_log_yields_error_once_and_goes_on() {
    let mut kill_log = KillLog::new(lines(
        "  0:00 InitGame: \n\
         \x20 0:27 Kill: 2 3 4: a killed b by MOD_WHAT\n\
         \x20 1:08 Kill: 3 2 6: b killed a by MOD_BFG\n",
    ));

    assert_eq!(kill_log.next(), Some(Ok(LogEntry::InitGame)));
    assert_eq!(
        kill_log.next(),
        Some(Err(Error::InvalidCauseOfDeath(String::from("MOD_WHAT"))))
    );
    assert_eq!(
        kill_log.next(),
        Some(Ok(LogEntry::Kill(KillEntry::new("b", "a", CauseOfDeath::MOD_BFG))))
    );
    assert_eq!(kill_log.next(), None);
}

fn drain(mut kill_log: KillLog) -> Vec<Result<LogEntry, Error>> {
    let mut all = Vec::new();
    while let Some(entry) = kill_log.next() {
        all.push(entry);
    }
    all
}

#[test]
fn passed_over_lines_change_nothing() {
    let log = [
        "  0:00 InitGame: \\sv_floodProtect\\1\n",
        "  0:27 Kill: 1022 2 22: <world> killed Isgalamido by MOD_TRIGGER_HURT\n",
        "  1:08 Kill: 3 2 6: Isgalamido killed Mocinha by MOD_ROCKET\n",
        "  1:47 InitGame: \\sv_floodProtect\\1\n",
    ];
    let noise = [
        "\n",
        " 26  0:00 ------------------------------------------------------------\n",
        " 20:34 ClientConnect: 2\n",
    ];
    let plain: Vec<String> = log.iter().map(|line| String::from(*line)).collect();
    let expected = drain(KillLog::new(plain));
    assert_eq!(expected.len(), 4);

    for at in 0..=log.len() {
        let mut mixed: Vec<String> = Vec::new();
        for (i, line) in log.iter().enumerate() {
            if i == at {
                mixed.extend(noise.iter().map(|line| String::from(*line)));
            }
            mixed.push(String::from(*line));
        }
        if at == log.len() {
            mixed.extend(noise.iter().map(|line| String::from(*line)));
        }
        assert_eq!(drain(KillLog::new(mixed)), expected);
    }
}
