use gpu_test_harness::messages::{
    concatenate, contains, find_number, find_silent, first_mention, mention, read_thread,
};

fn strings(texts: &[&str]) -> Vec<String> {
    texts.iter().map(|t| t.to_string()).collect()
}

#[test]
fn parts_are_found_anywhere() {
    assert!(contains("auto: done", "done"));
    assert!(contains("auto: done", "auto: done"));
    assert!(contains("anything", ""));
    assert!(contains("aaab", "aab"));
    assert!(contains("Größe → 3", "→ 3"));
    assert!(!contains("auto: don", "done"));
    assert!(!contains("", "x"));
}

#[test]
fn first_mention_is_the_first() {
    let messages = strings(&["step 1", "step 2", "step 2 again"]);
    assert_eq!(first_mention(&messages, "step 2"), Some(1));
    assert_eq!(first_mention(&messages, "step 3"), None);
    assert!(mention(&messages, "again"));
    assert!(!mention(&Vec::new(), ""));
}

#[test]
fn concatenation_joins_split_words() {
    let messages = strings(&["value", " = ", "42\n"]);
    assert_eq!(concatenate(&messages), "value = 42\n");
    assert_eq!(concatenate(&Vec::new()), "");
}

#[test]
fn numbers_stand_behind_their_prefix() {
    assert_eq!(find_number("pipelined: done 1234iter", "done "), 1234);
    assert_eq!(find_number("done 0007", "done "), 7);
    assert_eq!(find_number("done 1 done 2", "done "), 1);
    assert_eq!(find_number("done x1", "done "), 0);
    assert_eq!(find_number("done ", "done "), 0);
    assert_eq!(find_number("nothing", "done "), 0);
    assert_eq!(find_number("done 4294967295", "done "), 4294967295);
    assert_eq!(find_number("done 4294967296", "done "), 0);
    assert_eq!(find_number("done 99999999999999999999999", "done "), 0);
}

#[test]
fn threads_name_themselves() {
    assert_eq!(read_thread("Thread 07 says hi", false), Some(7));
    assert_eq!(read_thread("Thread 31 says hi", false), Some(31));
    assert_eq!(read_thread("Thread 39 says hi", false), Some(39));
    assert_eq!(read_thread("Thread 40 says hi", false), None);
    assert_eq!(read_thread("Thread 0x says hi", false), None);
    assert_eq!(read_thread("thread 07 says hi", false), None);
    assert_eq!(read_thread("Thread 07 hello", false), None);
    assert_eq!(read_thread("Thread 07 hello!", false), Some(7));
    assert_eq!(read_thread("Thread 07 héllo", false), Some(7));
    assert_eq!(read_thread("Thread 127 hello!", true), Some(127));
    assert_eq!(read_thread("Thread 999 hello!", true), Some(999));
    assert_eq!(read_thread("Thread 127 hello", true), None);
    assert_eq!(read_thread("Thread 12 hello!!", true), None);
    assert_eq!(read_thread("Thread é", false), None);
}

#[test]
fn silent_threads_are_listed_in_order() {
    let messages = strings(&[
        "Thread 02 is here",
        "Thread 00 is here",
        "Thread 02 is here",
        "noise",
        "Thread 09 is here",
    ]);
    assert_eq!(find_silent(&messages, false, 4), vec![1, 3]);
    assert_eq!(find_silent(&messages, false, 0), Vec::<u64>::new());
    assert_eq!(find_silent(&Vec::new(), true, 3), vec![0, 1, 2]);
    assert_eq!(find_silent(&messages, false, 1500).len(), 1497);
}

#[test]
fn heard_threads_are_never_more_than_messages() {
    let messages = strings(&["Thread 001 is here", "Thread 001 is here", "Thread 000 is here"]);
    let silent = find_silent(&messages, true, 10);
    assert_eq!(10 - silent.len(), 2);
    assert!(10 - silent.len() <= messages.len());
}
