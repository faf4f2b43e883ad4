use wakeup_alarm::alarm::{
    chosen_sound, is_sound_file, random_alarm_sound, sound_files, AlarmSoundError,
};

fn paths(names: &[&str]) -> Vec<String> {
    names.iter().map(|n| n.to_string()).collect()
}

#[test]
fn sound_files_go_by_their_extension() {
    for name in [
        "a.mp3", "./sounds/b.ogg", "/x/y/c.flac", "d.wav", "two.dots.mp3", "dir.d/e.wav",
        "sounds/f.mp3/",
    ] {
        assert!(is_sound_file(&name.to_string()));
    }
    for name in [
        "a.txt", "mp3", "a.MP3", "a.mp3.bak", ".mp3", "sounds.wav/readme", "a.", "", "a.mp3/..",
        "a.mp4", "wav.",
    ] {
        assert!(!is_sound_file(&name.to_string()));
    }
}

#[test]
fn sound_files_keep_their_order() {
    let listing = paths(&["./s/notes.txt", "./s/b.ogg", "./s/cover.png", "./s/a.mp3", "./s/c"]);
    assert_eq!(sound_files(&listing), paths(&["./s/b.ogg", "./s/a.mp3"]));
    assert_eq!(sound_files(&paths(&[])), paths(&[]));
}

#[test]
fn a_sound_file_of_the_directory_is_chosen() {
    let listing = paths(&["./s/notes.txt", "./s/b.ogg", "./s/cover.png", "./s/a.mp3", "./s/c.wav"]);
    let mut seen = [false; 3];
    for _ in 0..200 {
        let chosen = random_alarm_sound("./s", Ok(listing.clone())).unwrap();
        match chosen.as_str() {
            "./s/b.ogg" => seen[0] = true,
            "./s/a.mp3" => seen[1] = true,
            "./s/c.wav" => seen[2] = true,
            other => panic!("{} is no sound file of the directory", other),
        }
    }
    assert_eq!(seen, [true, true, true]);
}

#[test]
fn the_only_sound_file_is_chosen() {
    let listing = paths(&["./s/notes.txt", "./s/only.flac"]);
    for _ in 0..20 {
        assert_eq!(
            random_alarm_sound("./s", Ok(listing.clone())),
            Ok("./s/only.flac".to_string())
        );
    }
}

#[test]
fn a_directory_without_sound_files_has_nothing_to_choose() {
    assert_eq!(random_alarm_sound("./s", Ok(paths(&[]))), Err(AlarmSoundError::NoFiles));
    assert_eq!(
        random_alarm_sound("./s", Ok(paths(&["./s/notes.txt", "./s/mp3"]))),
        Err(AlarmSoundError::NoFiles)
    );
}

#[test]
fn a_directory_that_cannot_be_listed_is_reported() {
    assert_eq!(
        random_alarm_sound("./sounds", Err("permission denied".to_string())),
        Err(AlarmSoundError::CouldNotReadDir(
            "./sounds".to_string(),
            "permission denied".to_string()
        ))
    );
}

#[test]
fn what_was_drawn_is_what_is_played() {
    let sounds = paths(&["a.mp3", "b.ogg", "c.wav"]);
    assert_eq!(chosen_sound(&sounds, Some(0)), Ok("a.mp3".to_string()));
    assert_eq!(chosen_sound(&sounds, Some(2)), Ok("c.wav".to_string()));
    assert_eq!(chosen_sound(&sounds, None), Err(AlarmSoundError::NoFiles));
    assert_eq!(chosen_sound(&paths(&[]), None), Err(AlarmSoundError::NoFiles));
}
