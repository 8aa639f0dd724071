use nes_ui::library::{library_view, LibraryRow, LibrarySort};

fn row(title: &str, file_name: &str, last_played: u64) -> LibraryRow {
    LibraryRow {
        title: title.into(),
        file_name: file_name.into(),
        last_played,
    }
}

fn rows() -> Vec<LibraryRow> {
    vec![
        row("zelda", "Zelda (USA).nes", 30),
        row("Metroid", "metroid.nes", 0),
        row("Castlevania", "cv1.nes", 30),
        row("Mega Man 2", "mm2 (Europe).nes", 50),
        row("ÉLITE", "elite.nes", 10),
    ]
}

#[test]
fn titles_sort_ignoring_case() {
    assert_eq!(library_view(&rows(), "", LibrarySort::Title), vec![2, 3, 1, 0, 4]);
}

#[test]
fn recent_games_come_first_and_ties_keep_library_order() {
    assert_eq!(library_view(&rows(), "", LibrarySort::Recent), vec![3, 0, 2, 4, 1]);
}

#[test]
fn search_matches_titles_and_file_names_ignoring_case() {
    assert_eq!(library_view(&rows(), "MAN", LibrarySort::Title), vec![3]);
    assert_eq!(library_view(&rows(), "europe", LibrarySort::Title), vec![3]);
    assert_eq!(library_view(&rows(), ".NES", LibrarySort::Recent), vec![3, 0, 2, 4, 1]);
    assert_eq!(library_view(&rows(), "élite", LibrarySort::Title), vec![4]);
    assert!(library_view(&rows(), "tetris", LibrarySort::Title).is_empty());
}
