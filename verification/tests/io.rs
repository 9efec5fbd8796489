use core::convert::TryFrom;
use paper::io::ui::{DisplayCmd, RowText, Style, StyledText};
use paper::io::{File, FileCommand, Language, Output};
use paper::lsp::{MessageType, ShowMessageRequestParams};

#[test]
fn outputs_become_file_commands() {
    let output = Output::ReadFile {
        path: "a.rs".to_string(),
    };
    assert_eq!(
        FileCommand::try_from(output.clone()),
        Ok(FileCommand::Read {
            path: "a.rs".to_string()
        })
    );
    assert_eq!(FileCommand::try_from(Output::Quit), Err(Output::Quit));
    assert_eq!(
        Output::from(FileCommand::Read {
            path: "a.rs".to_string()
        }),
        output
    );
    assert_eq!(<()>::try_from(Output::Quit), Ok(()));
    assert_eq!(Output::from(()), Output::Quit);
}

#[test]
fn outputs_become_display_commands() {
    let question = Output::Question {
        request: ShowMessageRequestParams {
            typ: MessageType::Info,
            message: "sure?".to_string(),
            actions: None,
        },
    };
    assert_eq!(
        DisplayCmd::try_from_output(question, "head".to_string()),
        Ok(DisplayCmd::Rows {
            rows: vec![RowText::new(vec![StyledText::new(
                "sure?".to_string(),
                Style::Default
            )])]
        })
    );
    assert_eq!(
        DisplayCmd::try_from_output(Output::UpdateHeader, "head".to_string()),
        Ok(DisplayCmd::Header {
            header: "head".to_string()
        })
    );
    assert_eq!(
        DisplayCmd::try_from_output(Output::Shutdown, String::new()),
        Err(Output::Shutdown)
    );
    assert_eq!(
        Output::from(DisplayCmd::Command {
            command: ":o".to_string()
        }),
        Output::Command {
            command: ":o".to_string()
        }
    );
}

#[test]
fn files_know_their_language() {
    assert_eq!(
        File::new("file:///home/a/main.rs".to_string(), String::new()).language(),
        Some(Language::Rust)
    );
    assert_eq!(
        File::new("file:///home/a/main.txt".to_string(), String::new()).language(),
        None
    );
    assert_eq!(File::new("main.rs".to_string(), String::new()).language(), None);
    assert_eq!(Language::Rust.id(), "rust".to_string());
}
