//! Kernels that drive files and output on their own: what they are given, and
//! what their results come to.
use vstd::prelude::*;
use crate::error::{rejected, reported, Failure, HarnessError};
use crate::messages::{contains, find_number, first_mention, mention, mentioned, number_after, occurs};
use crate::text::{decimal, say, texts, two_digits, Line};

verus! {

/// The bytes of a text.
pub open spec fn bytes_of(text: Seq<char>) -> Seq<u8> {
    vstd::utf8::encode_utf8(text)
}

/// The bytes of a text over and over, up to a length.
pub open spec fn repeated(text: Seq<char>, len: nat) -> Seq<u8> {
    Seq::new(len, |i: int| bytes_of(text)[i % (bytes_of(text).len() as int)])
}

/// Repeats the bytes of a text up to a length.
pub fn repeat_text(text: &str, len: usize) -> (bytes: Vec<u8>)
    requires
        bytes_of(text@).len() > 0,
    ensures
        bytes@ == repeated(text@, len as nat),
{
    let pattern: &[u8] = text.as_bytes();
    let mut bytes: Vec<u8> = Vec::new();
    let mut i: usize = 0;
    while i < len
        invariant
            i <= len,
            pattern@ == bytes_of(text@),
            pattern@.len() > 0,
            bytes@ =~= repeated(text@, i as nat),
        decreases len - i,
    {
        bytes.push(pattern[i % pattern.len()]);
        i += 1;
    }
    bytes
}

/// The length of the file that the transforming kernel reads.
pub const TRANSFORM_LEN: usize = 1024;

/// The file that the transforming kernel reads.
pub fn transform_input() -> (bytes: Vec<u8>)
    ensures
        bytes@ == repeated("Hello, GPU Pipeline! "@, TRANSFORM_LEN as nat),
{
    proof {
        reveal_strlit("Hello, GPU Pipeline! ");
        vstd::utf8::is_ascii_chars_encode_utf8("Hello, GPU Pipeline! "@);
    }
    repeat_text("Hello, GPU Pipeline! ", TRANSFORM_LEN)
}

/// The byte with the case of an ASCII letter changed.
pub open spec fn toggled_byte(byte: u8) -> u8 {
    if 65 <= byte <= 90 {
        (byte + 32) as u8
    } else if 97 <= byte <= 122 {
        (byte - 32) as u8
    } else {
        byte
    }
}

/// The bytes with the case of every ASCII letter changed.
pub open spec fn toggled(bytes: Seq<u8>) -> Seq<u8> {
    bytes.map_values(|b: u8| toggled_byte(b))
}

/// Changes the case of every ASCII letter.
pub fn toggle_case(bytes: &Vec<u8>) -> (result: Vec<u8>)
    ensures
        result@ == toggled(bytes@),
{
    let mut result: Vec<u8> = Vec::new();
    let mut i: usize = 0;
    while i < bytes.len()
        invariant
            i <= bytes.len(),
            result@ =~= toggled(bytes@.take(i as int)),
        decreases bytes.len() - i,
    {
        let byte: u8 = bytes[i];
        assert(65 <= byte <= 90 ==> byte ^ 0x20 == byte + 32) by (bit_vector);
        assert(97 <= byte <= 122 ==> byte ^ 0x20 == byte - 32) by (bit_vector);
        let letter: bool = (65 <= byte && byte <= 90) || (97 <= byte && byte <= 122);
        result.push(
            if letter {
                byte ^ 0x20
            } else {
                byte
            },
        );
        i += 1;
    }
    assert(bytes@.take(i as int) =~= bytes@);
    result
}

/// Changing the case twice changes nothing.
pub proof fn toggling_twice_restores(bytes: Seq<u8>)
    ensures
        toggled(toggled(bytes)) == bytes,
        toggled(bytes).len() == bytes.len(),
{
    assert(toggled(toggled(bytes)) =~= bytes);
}

/// Whether two lists of bytes are the same.
pub fn same_bytes(a: &Vec<u8>, b: &Vec<u8>) -> (same: bool)
    ensures
        same == (a@ == b@),
{
    if a.len() != b.len() {
        return false;
    }
    let mut i: usize = 0;
    while i < a.len()
        invariant
            i <= a@.len() == b@.len(),
            forall|k: int| 0 <= k < i ==> #[trigger] a@[k] == b@[k],
        decreases a.len() - i,
    {
        if a[i] != b[i] {
            return false;
        }
        i += 1;
    }
    assert(a@ =~= b@);
    true
}

/// What was found of a transformed file.
#[derive(Clone, Copy, PartialEq, Eq, Structural, Debug)]
pub struct TransformFindings {
    pub content_ok: bool,
    pub message_ok: bool,
}

/// Looks at a transformed file and at the messages of the kernel.
pub fn examine_transform(input: &Vec<u8>, output: &Vec<u8>, messages: &Vec<String>) -> (findings:
    TransformFindings)
    ensures
        findings.content_ok == (output@ == toggled(input@)),
        findings.message_ok == mentioned(texts(messages@), "pipeline: done"@),
{
    let expected: Vec<u8> = toggle_case(input);
    TransformFindings {
        content_ok: same_bytes(output, &expected),
        message_ok: mention(messages, "pipeline: done"),
    }
}

/// What the transforming kernel comes to.
pub open spec fn transform_failure(status: nat, findings: TransformFindings) -> Option<Failure> {
    if status == 1 && findings.content_ok && findings.message_ok {
        None
    } else {
        Some(rejected("file_transform_pipeline"@, "see above"@))
    }
}

/// Judges the transforming kernel.
pub fn judge_transform(status: u32, findings: TransformFindings) -> (result: Result<
    (),
    HarnessError,
>)
    ensures
        reported(result) == transform_failure(status as nat, findings),
{
    if status == 1 && findings.content_ok && findings.message_ok {
        Ok(())
    } else {
        Err(HarnessError::verification("file_transform_pipeline", say("see above")))
    }
}

/// What the transfer of bulk data comes to. Only the first word decides.
pub open spec fn bulk_failure(overall: nat, written: nat, read: nat, matching: nat) -> Option<
    Failure,
> {
    if overall == 1 {
        None
    } else {
        Some(
            rejected(
                "bulk_io_test"@,
                "overall="@ + decimal(overall) + ", written="@ + decimal(written) + ", read="@
                    + decimal(read) + ", match="@ + decimal(matching),
            ),
        )
    }
}

/// Judges the transfer of bulk data, by its first word; all four go into the
/// report.
pub fn judge_bulk(overall: u32, written: u32, read: u32, matching: u32) -> (result: Result<
    (),
    HarnessError,
>)
    ensures
        reported(result) == bulk_failure(
            overall as nat,
            written as nat,
            read as nat,
            matching as nat,
        ),
{
    if overall == 1 {
        Ok(())
    } else {
        Err(
            HarnessError::verification(
                "bulk_io_test",
                say("overall=").dec(overall as u64).text(", written=").dec(written as u64).text(
                    ", read=",
                ).dec(read as u64).text(", match=").dec(matching as u64),
            ),
        )
    }
}

/// What a kernel that panics on purpose comes to: it sets its marker right before.
pub open spec fn panic_failure(marker: nat) -> Option<Failure> {
    if marker == 1 {
        None
    } else {
        Some(rejected("panic_test"@, "marker was "@ + decimal(marker) + " (expected 1)"@))
    }
}

/// Judges a kernel that panics on purpose by its marker.
pub fn judge_panic(marker: u32) -> (result: Result<(), HarnessError>)
    ensures
        reported(result) == panic_failure(marker as nat),
{
    if marker == 1 {
        return Ok(());
    }
    Err(
        HarnessError::verification(
            "panic_test",
            say("marker was ").dec(marker as u64).text(" (expected 1)"),
        ),
    )
}

/// What the sharded buffer comes to: every block succeeds, and sends one message.
pub open spec fn shards_failure(blocks: nat, succeeded: nat, messages: nat) -> Option<Failure> {
    if succeeded != blocks {
        Some(
            rejected(
                "sharded_hostcall"@,
                "expected "@ + decimal(blocks) + " successes, got "@ + decimal(succeeded),
            ),
        )
    } else if messages != blocks {
        Some(
            rejected(
                "sharded_hostcall"@,
                "expected "@ + decimal(blocks) + " messages, got "@ + decimal(messages),
            ),
        )
    } else {
        None
    }
}

/// Judges the sharded buffer.
pub fn judge_shards(blocks: u32, succeeded: u32, messages: usize) -> (result: Result<
    (),
    HarnessError,
>)
    ensures
        reported(result) == shards_failure(blocks as nat, succeeded as nat, messages as nat),
{
    if succeeded != blocks {
        return Err(
            HarnessError::verification(
                "sharded_hostcall",
                say("expected ").dec(blocks as u64).text(" successes, got ").dec(succeeded as u64),
            ),
        );
    }
    if messages as u64 != blocks as u64 {
        return Err(
            HarnessError::verification(
                "sharded_hostcall",
                say("expected ").dec(blocks as u64).text(" messages, got ").dec(messages as u64),
            ),
        );
    }
    Ok(())
}

/// The file that the searching kernel reads. Four of its lines have the word that
/// it looks for.
pub fn grep_text() -> (text: &'static str)
    ensures
        text@
            == "Hello world from the host\nThis line mentions GPU computing\nPlain text line number three\nAnother GPU reference here\nNothing special on this line\nGPU acceleration is the future\nFinal line without the keyword\nYet another GPU mention for testing\n"@,
{
    "Hello world from the host\nThis line mentions GPU computing\nPlain text line number three\nAnother GPU reference here\nNothing special on this line\nGPU acceleration is the future\nFinal line without the keyword\nYet another GPU mention for testing\n"
}

/// The low halves of the words: the counts that the searching threads wrote.
pub fn low_words(words: &Vec<u64>) -> (low: Vec<u32>)
    ensures
        low@.len() == words@.len(),
        forall|i: int| 0 <= i < words@.len() ==> #[trigger] low@[i] == words@[i] % 0x1_0000_0000,
{
    let mut low: Vec<u32> = Vec::new();
    let mut i: usize = 0;
    while i < words.len()
        invariant
            i <= words.len(),
            low@.len() == i,
            forall|k: int| 0 <= k < i ==> #[trigger] low@[k] == words@[k] % 0x1_0000_0000,
        decreases words.len() - i,
    {
        low.push((words[i] % 0x1_0000_0000) as u32);
        i += 1;
    }
    low
}

/// Whether the searching threads found everything: four matches each.
pub open spec fn found_everything(matches: int, threads: int) -> bool {
    matches == 4 * threads
}

/// Whether the searching threads found everything.
pub fn grep_complete(matches: u32, threads: u32) -> (complete: bool)
    ensures
        complete == (matches == 4 * threads),
        complete == found_everything(matches as int, threads as int),
{
    matches as u64 == 4 * threads as u64
}

/// What was found after the kernel had to create a file.
#[derive(Clone, Copy, PartialEq, Eq, Structural, Debug)]
pub struct CreationFindings {
    pub created_msg: bool,
    pub file_exists: bool,
    pub content_ok: bool,
}

/// Looks at the messages and at the file that the kernel had to create. `content`
/// is missing where the file cannot be read.
pub fn examine_creation(
    messages: &Vec<String>,
    file_exists: bool,
    content: &Option<Vec<u8>>,
) -> (findings: CreationFindings)
    ensures
        findings.created_msg == mentioned(texts(messages@), "file created"@),
        findings.file_exists == file_exists,
        findings.content_ok == (file_exists && (content matches Some(bytes) && bytes@ == bytes_of(
            "hello from GPU\n"@,
        ))),
{
    let content_ok: bool = match content {
        Some(bytes) => {
            let expected: Vec<u8> = "hello from GPU\n".as_bytes_vec();
            file_exists && same_bytes(bytes, &expected)
        },
        None => false,
    };
    CreationFindings { created_msg: mention(messages, "file created"), file_exists, content_ok }
}

/// What the branch that creates the file comes to.
pub open spec fn creation_failure(status: nat, findings: CreationFindings) -> Option<Failure> {
    if status == 1 && findings.created_msg && findings.file_exists && findings.content_ok {
        None
    } else {
        Some(rejected("branching_pipeline_run1"@, "CREATE branch failed"@))
    }
}

/// Judges the branch that creates the file.
pub fn judge_creation(status: u32, findings: CreationFindings) -> (result: Result<
    (),
    HarnessError,
>)
    ensures
        reported(result) == creation_failure(status as nat, findings),
{
    if status == 1 && findings.created_msg && findings.file_exists && findings.content_ok {
        Ok(())
    } else {
        Err(HarnessError::verification("branching_pipeline_run1", say("CREATE branch failed")))
    }
}

/// What the branch that finds the file comes to.
pub open spec fn existence_failure(status: nat, messages: Seq<Seq<char>>) -> Option<Failure> {
    if status == 1 && mentioned(messages, "file exists"@) {
        None
    } else {
        Some(rejected("branching_pipeline_run2"@, "EXISTS branch failed"@))
    }
}

/// Judges the branch that finds the file.
pub fn judge_existence(status: u32, messages: &Vec<String>) -> (result: Result<(), HarnessError>)
    ensures
        reported(result) == existence_failure(status as nat, texts(messages@)),
{
    if status == 1 && mention(messages, "file exists") {
        Ok(())
    } else {
        Err(HarnessError::verification("branching_pipeline_run2", say("EXISTS branch failed")))
    }
}

/// Whether message `m` is the first that has `part` in it.
pub open spec fn first_mentions(messages: Seq<Seq<char>>, part: Seq<char>, m: int) -> bool {
    &&& 0 <= m < messages.len()
    &&& occurs(messages[m], part)
    &&& forall|k: int| 0 <= k < m ==> !occurs(#[trigger] messages[k], part)
}

/// The iterations that the first closing message states; 0 where there is none.
pub open spec fn stated_iterations(messages: Seq<Seq<char>>) -> int {
    if mentioned(messages, "pipelined: done"@) {
        let m = choose|m: int| first_mentions(messages, "pipelined: done"@, m);
        number_after(messages[m], "done "@)
    } else {
        0
    }
}

/// What the messages say of computing while a request is under way.
#[derive(Clone, Copy, PartialEq, Eq, Structural, Debug)]
pub struct OverlapFindings {
    pub start: bool,
    pub computing: bool,
    pub iterations: u32,
}

/// Looks at the messages of a kernel that computes while a request is under way.
pub fn examine_overlap(messages: &Vec<String>) -> (findings: OverlapFindings)
    ensures
        findings.start == mentioned(texts(messages@), "pipelined: start"@),
        findings.computing == mentioned(texts(messages@), "pipelined: computing"@),
        findings.iterations == stated_iterations(texts(messages@)),
{
    let iterations: u32 = match first_mention(messages, "pipelined: done") {
        Some(m) => {
            let ghost all = texts(messages@);
            let ghost part = "pipelined: done"@;
            proof {
                assert(all[m as int] == messages@[m as int]@);
                assert(first_mentions(all, part, m as int));
                let other = choose|k: int| first_mentions(all, part, k);
                assert(first_mentions(all, part, other));
                assert(other == m);
            }
            find_number(messages[m].as_str(), "done ")
        },
        None => 0,
    };
    OverlapFindings {
        start: mention(messages, "pipelined: start"),
        computing: mention(messages, "pipelined: computing"),
        iterations,
    }
}

/// What computing while a request is under way comes to.
pub open spec fn overlap_failure(status: nat, findings: OverlapFindings) -> Option<Failure> {
    if status == 1 && findings.start && findings.computing && findings.iterations > 0 {
        None
    } else {
        Some(rejected("pipelined_compute"@, "Pipelined I/O + compute failed"@))
    }
}

/// Judges computing while a request is under way.
pub fn judge_overlap(status: u32, findings: OverlapFindings) -> (result: Result<(), HarnessError>)
    ensures
        reported(result) == overlap_failure(status as nat, findings),
{
    if status == 1 && findings.start && findings.computing && findings.iterations > 0 {
        Ok(())
    } else {
        Err(
            HarnessError::verification("pipelined_compute", say("Pipelined I/O + compute failed")),
        )
    }
}

/// What a warp of executors comes to.
pub open spec fn warp_failure(completed: nat, messages: nat) -> Option<Failure> {
    let test = "warp_scale_async_kernel"@;
    if completed != 32 {
        Some(rejected(test, "only "@ + decimal(completed) + "/32 threads completed"@))
    } else if messages < 32 {
        Some(rejected(test, "only "@ + decimal(messages) + " messages, expected 32"@))
    } else {
        None
    }
}

/// Judges a warp of executors.
pub fn judge_warp(completed: u32, messages: usize) -> (result: Result<(), HarnessError>)
    ensures
        reported(result) == warp_failure(completed as nat, messages as nat),
{
    if completed != 32 {
        return Err(
            HarnessError::verification(
                "warp_scale_async_kernel",
                say("only ").dec(completed as u64).text("/32 threads completed"),
            ),
        );
    }
    if messages < 32 {
        return Err(
            HarnessError::verification(
                "warp_scale_async_kernel",
                say("only ").dec(messages as u64).text(" messages, expected 32"),
            ),
        );
    }
    Ok(())
}

/// What the kernel does on its own.
#[derive(Clone, Copy, PartialEq, Eq, Structural, Debug)]
pub enum Mode {
    /// It writes a file.
    Write,
    /// It reads a file and decides by its size.
    Classify,
    /// It writes a file and reads it back.
    RoundTrip,
}

/// The first thing that is wrong with a run in the given mode, if any.
pub open spec fn mode_complaint(mode: Mode, status: nat, messages: Seq<Seq<char>>) -> Option<
    Seq<char>,
> {
    match mode {
        Mode::Write => if status != 1 {
            Some("Mode 0: kernel should succeed"@)
        } else if !mentioned(messages, "auto: start"@) {
            Some("Mode 0: should see init message"@)
        } else if !mentioned(messages, "auto: file-written"@) {
            Some("Mode 0: should see file-written"@)
        } else if !mentioned(messages, "auto: done"@) {
            Some("Mode 0: should see done message"@)
        } else {
            None
        },
        Mode::Classify => if status != 1 {
            Some("Mode 1: kernel should succeed"@)
        } else if !mentioned(messages, "auto: large-payload"@) {
            Some("Mode 1: should detect large payload (21 bytes > 10)"@)
        } else if !mentioned(messages, "auto: done"@) {
            Some("Mode 1: should see done message"@)
        } else {
            None
        },
        Mode::RoundTrip => if status != 1 {
            Some("Mode 2: kernel should succeed"@)
        } else if !mentioned(messages, "auto: roundtrip-ok"@) {
            Some("Mode 2: roundtrip should verify successfully"@)
        } else if !mentioned(messages, "auto: done"@) {
            Some("Mode 2: should see done message"@)
        } else {
            None
        },
    }
}

/// The characters of a complaint, if there is one.
pub open spec fn wording(complaint: Option<&str>) -> Option<Seq<char>> {
    match complaint {
        Some(text) => Some(text@),
        None => None,
    }
}

/// The first thing that is wrong with a run in the given mode.
pub fn examine_mode(mode: Mode, status: u32, messages: &Vec<String>) -> (complaint: Option<
    &'static str,
>)
    ensures
        wording(complaint) == mode_complaint(mode, status as nat, texts(messages@)),
{
    match mode {
        Mode::Write => if status != 1 {
            Some("Mode 0: kernel should succeed")
        } else if !mention(messages, "auto: start") {
            Some("Mode 0: should see init message")
        } else if !mention(messages, "auto: file-written") {
            Some("Mode 0: should see file-written")
        } else if !mention(messages, "auto: done") {
            Some("Mode 0: should see done message")
        } else {
            None
        },
        Mode::Classify => if status != 1 {
            Some("Mode 1: kernel should succeed")
        } else if !mention(messages, "auto: large-payload") {
            Some("Mode 1: should detect large payload (21 bytes > 10)")
        } else if !mention(messages, "auto: done") {
            Some("Mode 1: should see done message")
        } else {
            None
        },
        Mode::RoundTrip => if status != 1 {
            Some("Mode 2: kernel should succeed")
        } else if !mention(messages, "auto: roundtrip-ok") {
            Some("Mode 2: roundtrip should verify successfully")
        } else if !mention(messages, "auto: done") {
            Some("Mode 2: should see done message")
        } else {
            None
        },
    }
}

/// What is wrong with the file that the writing mode leaves behind, if anything.
pub fn examine_written(content: &Vec<u8>) -> (complaint: Option<&'static str>)
    ensures
        wording(complaint) == if content@ == bytes_of("GPU-autonomous-output"@) {
            None
        } else {
            Some("Mode 0: file content mismatch"@)
        },
{
    let expected: Vec<u8> = "GPU-autonomous-output".as_bytes_vec();
    if same_bytes(content, &expected) {
        None
    } else {
        Some("Mode 0: file content mismatch")
    }
}

/// How many messages the printing kernel collects before it sends them.
pub const BUFFERED_MESSAGES: usize = 12;

/// What buffered printing comes to.
pub open spec fn buffered_failure(result: nat, messages: nat) -> Option<Failure> {
    let test = "buffered_print_test"@;
    if result != 1 {
        Some(rejected(test, "kernel returned "@ + decimal(result) + ", expected 1"@))
    } else if messages < BUFFERED_MESSAGES {
        Some(rejected(test, "expected 12 messages, got "@ + decimal(messages)))
    } else {
        None
    }
}

/// Judges buffered printing.
pub fn judge_buffered(result: u32, messages: usize) -> (verdict: Result<(), HarnessError>)
    ensures
        reported(verdict) == buffered_failure(result as nat, messages as nat),
{
    if result != 1 {
        return Err(
            HarnessError::verification(
                "buffered_print_test",
                say("kernel returned ").dec(result as u64).text(", expected 1"),
            ),
        );
    }
    if messages < BUFFERED_MESSAGES {
        return Err(
            HarnessError::verification(
                "buffered_print_test",
                say("expected 12 messages, got ").dec(messages as u64),
            ),
        );
    }
    Ok(())
}

/// What message `i` of buffered printing must have in it.
pub open spec fn buffered_text(i: nat) -> Seq<char> {
    "Buffered msg "@ + two_digits(i)
}

/// The messages below `n` that do not have in them what they must.
pub open spec fn unexpected(messages: Seq<Seq<char>>, n: nat) -> Seq<usize>
    decreases n,
{
    if n == 0 {
        Seq::empty()
    } else {
        let before = unexpected(messages, (n - 1) as nat);
        if occurs(messages[n - 1], buffered_text((n - 1) as nat)) {
            before
        } else {
            before.push((n - 1) as usize)
        }
    }
}

/// The messages of buffered printing that call for a warning.
pub fn find_unexpected(messages: &Vec<String>) -> (places: Vec<usize>)
    ensures
        places@ == unexpected(texts(messages@), messages@.len()),
{
    let mut places: Vec<usize> = Vec::new();
    let mut i: usize = 0;
    while i < messages.len()
        invariant
            i <= messages.len(),
            places@ == unexpected(texts(messages@), i as nat),
        decreases messages.len() - i,
    {
        let line: Line = say("Buffered msg ").pair(i as u64);
        let wanted: String = line.done();
        assert(texts(messages@)[i as int] == messages@[i as int]@);
        if !contains(messages[i].as_str(), wanted.as_str()) {
            places.push(i);
        }
        i += 1;
    }
    places
}

/// Toggling changes letters only: each becomes the same letter of the other case, and
/// stays where it is.
pub proof fn toggling_changes_the_case_of_letters(bytes: Seq<u8>, i: int)
    requires
        0 <= i < bytes.len(),
    ensures
        toggled(bytes).len() == bytes.len(),
        ({
            let (was, is) = (bytes[i], toggled(bytes)[i]);
            let upper = 'A' as int <= was <= 'Z' as int;
            let lower = 'a' as int <= was <= 'z' as int;
            &&& upper ==> is - 'a' as int == was - 'A' as int
            &&& lower ==> is - 'A' as int == was - 'a' as int
            &&& !upper && !lower ==> is == was
        }),
{
}

/// A repeated text begins with itself and goes on with itself.
pub proof fn repeated_text_is_periodic(text: Seq<char>, len: nat, i: int)
    requires
        bytes_of(text).len() > 0,
        0 <= i < len,
    ensures
        repeated(text, len).len() == len,
        i < bytes_of(text).len() ==> repeated(text, len)[i] == bytes_of(text)[i],
        i + bytes_of(text).len() < len ==> repeated(text, len)[i + bytes_of(text).len()]
            == repeated(text, len)[i],
{
    let n = bytes_of(text).len() as int;
    vstd::arithmetic::div_mod::lemma_mod_add_multiples_vanish(i, n);
    if i < n {
        vstd::arithmetic::div_mod::lemma_small_mod(i as nat, n as nat);
    }
}

/// A transformed file is accepted exactly when the kernel succeeded, its letters
/// changed their case, and the kernel said that it was done.
pub proof fn transform_is_accepted_if_toggled(status: nat, findings: TransformFindings)
    ensures
        transform_failure(status, findings) is None <==> status == 1 && findings.content_ok
            && findings.message_ok,
        transform_failure(status, findings) is Some ==> transform_failure(status, findings)->0
            == rejected("file_transform_pipeline"@, "see above"@),
{
}

/// The two branches are told apart: the file must have been created with the greeting
/// in it, or have been found.
pub proof fn branches_are_accepted_if_taken(
    status: nat,
    findings: CreationFindings,
    messages: Seq<Seq<char>>,
)
    ensures
        creation_failure(status, findings) is None <==> status == 1 && findings.created_msg
            && findings.file_exists && findings.content_ok,
        existence_failure(status, messages) is None <==> status == 1 && exists|m: int|
            0 <= m < messages.len() && occurs(#[trigger] messages[m], "file exists"@),
{
}

/// Computing during a request is accepted exactly when it began, was seen computing,
/// and counted at least one iteration.
pub proof fn overlap_is_accepted_if_something_was_computed(status: nat, findings: OverlapFindings)
    ensures
        overlap_failure(status, findings) is None <==> status == 1 && findings.start
            && findings.computing && findings.iterations >= 1,
{
}

/// The iterations are those that the first closing message states in decimal.
pub proof fn iterations_are_those_stated(
    messages: Seq<Seq<char>>,
    m: int,
    place: int,
    iterations: nat,
)
    requires
        0 <= m < messages.len(),
        occurs(messages[m], "pipelined: done"@),
        forall|k: int| 0 <= k < m ==> !occurs(#[trigger] messages[k], "pipelined: done"@),
        crate::messages::first_occurs_at(messages[m], "done "@, place),
        iterations <= u32::MAX,
        crate::messages::occurs_at(messages[m], decimal(iterations), place + 5),
        ({
            let end = place + 5 + decimal(iterations).len();
            end == messages[m].len() || !crate::messages::is_digit(messages[m][end])
        }),
    ensures
        stated_iterations(messages) == iterations,
{
    reveal_strlit("done ");
    let part = "pipelined: done"@;
    assert(first_mentions(messages, part, m));
    let other = choose|k: int| first_mentions(messages, part, k);
    assert(first_mentions(messages, part, other));
    assert(other == m);
    crate::messages::stated_numbers_read_back(messages[m], "done "@, place, iterations);
}

/// A warp of executors is accepted exactly when all its threads completed and at least
/// as many messages came.
pub proof fn warp_is_accepted_if_all_completed(completed: nat, messages: nat)
    ensures
        warp_failure(completed, messages) is None <==> completed == 32 && messages >= 32,
        buffered_failure(completed, messages) is None <==> completed == 1 && messages >= 12,
        panic_failure(completed) is None <==> completed == 1,
{
}

/// The sharded buffer is accepted exactly when every block succeeded and sent one
/// message.
pub proof fn shards_are_accepted_if_all_blocks_succeeded(
    blocks: nat,
    succeeded: nat,
    messages: nat,
)
    ensures
        shards_failure(blocks, succeeded, messages) is None <==> succeeded == blocks && messages
            == blocks,
        bulk_failure(blocks, succeeded, messages, messages) is None <==> blocks == 1,
{
}

/// A run on its own has nothing wrong exactly when it succeeded and said so at every
/// stage of its mode.
pub proof fn modes_are_accepted_if_said(mode: Mode, status: nat, messages: Seq<Seq<char>>)
    ensures
        mode_complaint(mode, status, messages) is None <==> {
            &&& status == 1
            &&& mentioned(messages, "auto: done"@)
            &&& mode == Mode::Write ==> mentioned(messages, "auto: start"@) && mentioned(
                messages,
                "auto: file-written"@,
            )
            &&& mode == Mode::Classify ==> mentioned(messages, "auto: large-payload"@)
            &&& mode == Mode::RoundTrip ==> mentioned(messages, "auto: roundtrip-ok"@)
        },
{
}

/// A message of buffered printing calls for a warning exactly when it does not have its
/// own number in it, in two digits.
pub proof fn unexpected_messages_are_complete(messages: Seq<Seq<char>>, n: nat, i: int)
    requires
        n <= usize::MAX,
        0 <= i < n,
    ensures
        unexpected(messages, n).contains(i as usize) <==> !occurs(
            messages[i],
            "Buffered msg "@ + two_digits(i as nat),
        ),
    decreases n,
{
    let now = unexpected(messages, n);
    let before = unexpected(messages, (n - 1) as nat);
    lemma_unexpected_below(messages, (n - 1) as nat);
    if !occurs(messages[n - 1], buffered_text((n - 1) as nat)) {
        assert(now[before.len() as int] == (n - 1) as usize);
        assert forall|k: usize| k != n - 1 implies now.contains(k) == before.contains(k) by {
            if before.contains(k) {
                let r = choose|r: int| 0 <= r < before.len() && before[r] == k;
                assert(now[r] == k);
            }
            if now.contains(k) {
                let r = choose|r: int| 0 <= r < now.len() && now[r] == k;
                assert(before[r] == k);
            }
        }
    }
    if i < n - 1 {
        unexpected_messages_are_complete(messages, (n - 1) as nat, i);
    }
}

proof fn lemma_unexpected_below(messages: Seq<Seq<char>>, n: nat)
    requires
        n <= usize::MAX,
    ensures
        forall|r: int| 0 <= r < unexpected(messages, n).len() ==> (#[trigger] unexpected(
            messages,
            n,
        )[r]) < n,
    decreases n,
{
    if n > 0 {
        lemma_unexpected_below(messages, (n - 1) as nat);
        let before = unexpected(messages, (n - 1) as nat);
        let now = unexpected(messages, n);
        assert forall|r: int| 0 <= r < now.len() implies (#[trigger] now[r]) < n by {
            if r < before.len() {
                assert(now[r] == before[r]);
            }
        }
    }
}

/// A search is complete when every thread has found the four lines: the counts of all
/// threads, each of them four, add up to what is asked for.
pub proof fn full_counts_are_complete(counts: Seq<u32>)
    requires
        forall|i: int| 0 <= i < counts.len() ==> #[trigger] counts[i] == 4,
    ensures
        found_everything(crate::tally::total(counts), counts.len() as int),
    decreases counts.len(),
{
    if counts.len() > 0 {
        let fewer = counts.drop_last();
        assert forall|i: int| 0 <= i < fewer.len() implies #[trigger] fewer[i] == 4 by {
            assert(counts[i] == 4);
        }
        full_counts_are_complete(fewer);
        assert(counts.last() == counts[counts.len() - 1]);
    }
}

/// A search with a match too few or too many is not complete.
pub proof fn other_counts_are_not_complete(matches: int, threads: int, other: int)
    requires
        found_everything(matches, threads),
        other != matches,
    ensures
        !found_everything(other, threads),
{
}

/// A rejection shows what was found, each number in its place.
pub proof fn rejections_show_what_was_found(a: nat, b: nat, c: nat, d: nat)
    ensures
        bulk_failure(a, b, c, d) matches Some(f) ==> f.detail == "overall="@ + decimal(a)
            + ", written="@ + decimal(b) + ", read="@ + decimal(c) + ", match="@ + decimal(d),
        b != a ==> shards_failure(a, b, c)->0.detail == "expected "@ + decimal(a)
            + " successes, got "@ + decimal(b),
        c != a ==> shards_failure(a, a, c)->0.detail == "expected "@ + decimal(a)
            + " messages, got "@ + decimal(c),
        a != 32 ==> warp_failure(a, b)->0.detail == "only "@ + decimal(a)
            + "/32 threads completed"@,
        b < 32 ==> warp_failure(32, b)->0.detail == "only "@ + decimal(b)
            + " messages, expected 32"@,
        a != 1 ==> buffered_failure(a, b)->0.detail == "kernel returned "@ + decimal(a)
            + ", expected 1"@,
        b < 12 ==> buffered_failure(1, b)->0.detail == "expected 12 messages, got "@ + decimal(b),
        a != 1 ==> panic_failure(a)->0.detail == "marker was "@ + decimal(a) + " (expected 1)"@,
{
}

} // verus!
