use paramo::journal::JournalEntry;
use paramo::report::weekly_report;
use paramo::scheduler::LocalTime;

// 2024-03-18 (a Monday) as chrono counts days from the common era.
const MONDAY: i32 = 738963;

fn unblock_on(day: i32) -> JournalEntry {
    JournalEntry {
        timestamp: LocalTime { day, hour: 12, minute: 0, second: 0 },
        reason: "porque sí".to_string(),
    }
}

/// The report as the text layout describes it, for the counts of the seven days
/// ending on Monday 2024-03-18.
fn expected(counts: [usize; 7]) -> String {
    let names = ["Mar", "Mié", "Jue", "Vie", "Sáb", "Dom", "Lun"];
    let dates = ["12/03", "13/03", "14/03", "15/03", "16/03", "17/03", "18/03"];
    let max_count = counts.iter().copied().max().unwrap_or(0).max(1);
    let mut out = String::new();
    out.push_str("╔══════════════════════════════════════════════╗\n");
    out.push_str("║        PARAMO · Reporte Semanal              ║\n");
    out.push_str("╚══════════════════════════════════════════════╝\n\n");
    for i in 0..7 {
        let count = counts[i];
        let bar = if count == 0 {
            "·".repeat(20)
        } else {
            let filled = ((count * 20) / max_count).max(1);
            format!("{}{}", "█".repeat(filled), "░".repeat(20 - filled))
        };
        let suffix = if i == 6 {
            " ← hoy".to_string()
        } else if count == 0 {
            " ★".to_string()
        } else {
            String::new()
        };
        out.push_str(&format!(
            "  {} {}  │ {} │  {} desbloq{}\n",
            names[i], dates[i], bar, count, suffix
        ));
    }
    let total: usize = counts.iter().sum();
    let clean = counts.iter().filter(|&&c| c == 0).count();
    let worst = counts.iter().copied().max().unwrap_or(0);
    let streak = counts.iter().rev().take_while(|&&c| c == 0).count();
    out.push_str("\n  ──────────────────────────────────────────────\n");
    out.push_str(&format!("  Desbloq. esta semana:   {}\n", total));
    out.push_str(&format!("  Días sin romper:         {} / 7\n", clean));
    out.push_str(&format!("  Peor día:                {} desbloq.\n", worst));
    out.push_str(&format!("  Racha actual:            {} días\n", streak));
    out.push('\n');
    out.push_str(match total {
        0 => "  ¡Semana perfecta! El colibrí está orgulloso de ti.\n",
        1..=3 => "  Muy bien. Casi impecable.\n",
        4..=10 => "  Hay margen de mejora. Tú puedes.\n",
        _ => "  Semana dura. ¿Has pensado en el Modo Monje?\n",
    });
    out
}

#[test]
fn perfect_week_report() {
    let entries = vec![unblock_on(MONDAY - 30)];
    assert_eq!(weekly_report(&entries, MONDAY), expected([0; 7]));
}

#[test]
fn week_report_scales_bars_to_worst_day() {
    let mut entries = Vec::new();
    for _ in 0..3 {
        entries.push(unblock_on(MONDAY - 5));
    }
    entries.push(unblock_on(MONDAY - 3));
    entries.push(unblock_on(MONDAY - 8));
    let r = weekly_report(&entries, MONDAY);
    assert_eq!(r, expected([0, 3, 0, 1, 0, 0, 0]));
    assert!(r.contains("  Racha actual:            3 días\n"));
    assert!(r.contains("██████░░░░░░░░░░░░░░"));
}

#[test]
fn hard_week_report() {
    let mut entries = Vec::new();
    for d in 0..7 {
        for _ in 0..2 {
            entries.push(unblock_on(MONDAY - d));
        }
    }
    assert_eq!(weekly_report(&entries, MONDAY), expected([2; 7]));
}
