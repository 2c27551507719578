use lemonbot::features::tts::replacements::{get_replacements, TTSReplacements};

fn process(text: &str) -> String {
    let r = TTSReplacements::new().expect("the patterns compile");
    let mut s = text.to_string();
    r.process_string(&mut s);
    s
}

#[test]
fn patterns_compile() {
    assert!(TTSReplacements::new().is_ok());
    let fixed = get_replacements().expect("the patterns compile");
    assert_eq!(fixed[0].1, " |code block| ");
    assert_eq!(fixed[1].1, " |code block|");
    assert_eq!(fixed[2].1, " |spoilers| ");
}

#[test]
fn code_blocks_and_spoilers() {
    assert_eq!(process("see ```fn main() {}\nmore``` here"), "see  |code block|  here");
    assert_eq!(process("run `ls` now"), "run  |code block| now");
    assert_eq!(process("it was ||the butler||!"), "it was  |spoilers| !");
}

#[test]
fn discord_emojis() {
    assert_eq!(process("hi <:wave:123456>"), "hi  wave emoji ");
    assert_eq!(process("<a:dance:42>"), " dance animated emoji ");
}

#[test]
fn unicode_emojis() {
    assert_eq!(process("nice 👍"), "nice  thumbs up emoji ");
    assert_eq!(process("😀"), " grinning face emoji ");
}

#[test]
fn plain_text_unchanged() {
    assert_eq!(process("just words"), "just words");
    assert_eq!(process(""), "");
}
