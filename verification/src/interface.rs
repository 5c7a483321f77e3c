//! Communication with the display.
//!
//! Every driver operation is a fixed program of [`Step`]s: batches of command bytes, blocks
//! of pixel data, and the changes of driver state that follow them. [`execute`] runs such a
//! program against a [`DisplayInterface`], stopping at the first transfer that fails, as a
//! chain of `?` would. Each interface keeps, as a spec function, the record of the transfers
//! it was handed, so that the contract of each operation says exactly which calls reached
//! the interface, with which bytes, in which order.

use vstd::prelude::*;

use crate::command::{AddrMode, Command};
use crate::mode::terminal::Cursor;

use display_interface::DisplayError;

verus! {

/// A transfer handed to an interface, with the interface's answer to it.
pub type Handed = (StepView, Result<(), DisplayError>);

/// A method of communicating with the SSD1306.
pub trait DisplayInterface {
    /// Every transfer handed to the interface so far, in order, each with the interface's
    /// answer: each call of [`DisplayInterface::send_commands`] as a `StepView::Commands` of
    /// its bytes, each call of [`DisplayInterface::send_data`] as a `StepView::Data` of its
    /// bytes.
    ///
    /// A verified implementation defines it and meets the contracts of the two methods, as
    /// `StubInterface` does; then every contract of this crate says exactly what reached that
    /// interface. The default, an empty record, exists only so that an implementation in
    /// plain Rust, which Verus never sees, compiles without defining it. With the default the
    /// methods' contracts cannot hold (an empty record never equals itself with a transfer
    /// added), so for such an implementation nothing proved here says anything about what it
    /// received.
    closed spec fn sent(&self) -> Seq<Handed> {
        Seq::empty()
    }

    /// Send a batch of up to 8 commands to display.
    fn send_commands(&mut self, cmd: &[u8]) -> (r: Result<(), DisplayError>)
        ensures
            final(self).sent() == old(self).sent().push((StepView::Commands(cmd@), r)),
    ;

    /// Send data to display.
    fn send_data(&mut self, buf: &[u8]) -> (r: Result<(), DisplayError>)
        ensures
            final(self).sent() == old(self).sent().push((StepView::Data(buf@), r)),
    ;
}

/// One step of a driver operation.
#[derive(Debug, PartialEq, Eq)]
pub enum Step {
    /// A batch of command bytes, handed to [`DisplayInterface::send_commands`].
    Commands(Vec<u8>),
    /// Display memory content, handed to [`DisplayInterface::send_data`].
    Data(Vec<u8>),
    /// From here on the display addresses its memory in this mode.
    AddrMode(AddrMode),
    /// From here on the terminal cursor stands here.
    Cursor(Cursor),
}

/// What a [`Step`] holds, with byte buffers seen as sequences.
pub ghost enum StepView {
    /// A batch of command bytes.
    Commands(Seq<u8>),
    /// Display memory content.
    Data(Seq<u8>),
    /// A change of addressing mode.
    AddrMode(AddrMode),
    /// A move of the terminal cursor.
    Cursor(Cursor),
}

impl StepView {
    /// The step hands bytes to the interface, which may fail.
    pub open spec fn is_transfer(self) -> bool {
        self is Commands || self is Data
    }
}

impl View for Step {
    type V = StepView;

    open spec fn view(&self) -> StepView {
        match self {
            Step::Commands(b) => StepView::Commands(b@),
            Step::Data(b) => StepView::Data(b@),
            Step::AddrMode(m) => StepView::AddrMode(*m),
            Step::Cursor(c) => StepView::Cursor(*c),
        }
    }
}

/// The steps of a program, each by its view.
pub open spec fn view_steps(steps: Seq<Step>) -> Seq<StepView> {
    steps.map_values(|s: Step| s@)
}

/// The step that sends a command.
pub open spec fn command(c: Command) -> StepView {
    StepView::Commands(c.bytes())
}

/// The steps that send these commands, one batch each, in order.
pub open spec fn commands(cs: Seq<Command>) -> Seq<StepView> {
    cs.map_values(|c: Command| command(c))
}

/// The addressing mode in effect after the state changes of `steps`.
pub open spec fn settle_addr_mode(start: AddrMode, steps: Seq<StepView>) -> AddrMode
    decreases steps.len(),
{
    if steps.len() == 0 {
        start
    } else {
        match steps.last() {
            StepView::AddrMode(m) => m,
            _ => settle_addr_mode(start, steps.drop_last()),
        }
    }
}

/// The terminal cursor after the state changes of `steps`.
pub open spec fn settle_cursor(start: Option<Cursor>, steps: Seq<StepView>) -> Option<Cursor>
    decreases steps.len(),
{
    if steps.len() == 0 {
        start
    } else {
        match steps.last() {
            StepView::Cursor(c) => Some(c),
            _ => settle_cursor(start, steps.drop_last()),
        }
    }
}

/// The transfers among `steps`, in order.
pub open spec fn transfers(steps: Seq<StepView>) -> Seq<StepView>
    decreases steps.len(),
{
    if steps.len() == 0 {
        Seq::empty()
    } else if steps.last().is_transfer() {
        transfers(steps.drop_last()).push(steps.last())
    } else {
        transfers(steps.drop_last())
    }
}

/// Every step of a program of transfers is handed to the interface.
pub proof fn lemma_transfers_of_transfers(steps: Seq<StepView>)
    requires
        forall|i: int| 0 <= i < steps.len() ==> (#[trigger] steps[i]).is_transfer(),
    ensures
        transfers(steps) == steps,
    decreases steps.len(),
{
    if steps.len() > 0 {
        let rest = steps.drop_last();
        assert forall|i: int| 0 <= i < rest.len() implies (#[trigger] rest[i]).is_transfer() by {
            assert(rest[i] == steps[i]);
        }
        lemma_transfers_of_transfers(rest);
        assert(steps.last() == steps[steps.len() - 1]);
        assert(rest.push(steps.last()) =~= steps);
    }
}

/// The transfers `ts`, each answered with `Ok`.
pub open spec fn answered_ok(ts: Seq<StepView>) -> Seq<Handed> {
    ts.map_values(|t: StepView| (t, Ok(())))
}

/// What the interface was handed when carrying out `steps` got as far as step `n` and ended
/// in `r`: the transfers of the steps carried out, each answered with `Ok`, and then, when
/// one failed, that one with the error it was answered with.
pub open spec fn handed_over(steps: Seq<StepView>, n: int, r: Result<(), DisplayError>) -> Seq<
    Handed,
> {
    match r {
        Ok(()) => answered_ok(transfers(steps.take(n))),
        Err(e) => answered_ok(transfers(steps.take(n))).push((steps[n], Err(e))),
    }
}

/// Carrying out `steps` got as far as step `n` and ended in `r`: through all of them when
/// `r` is `Ok`, else up to the transfer at `n`, which failed.
pub open spec fn ran_to(steps: Seq<StepView>, n: int, r: Result<(), DisplayError>) -> bool {
    &&& 0 <= n <= steps.len()
    &&& match r {
        Ok(()) => n == steps.len(),
        Err(_) => n < steps.len() && steps[n].is_transfer(),
    }
}

/// Carrying out `steps` from the addressing mode `mode0` and the terminal cursor `cursor0`, on
/// an interface that had been handed `sent0`, can have ended in `r` with `(mode1, cursor1)`
/// and the interface having been handed `sent1`: the steps carried out are all of them if
/// every transfer went through, else those before the transfer that failed; the interface
/// was handed their transfers and the failed one, nothing else, and the state follows their
/// changes.
pub open spec fn carried_out(
    steps: Seq<StepView>,
    r: Result<(), DisplayError>,
    mode0: AddrMode,
    cursor0: Option<Cursor>,
    sent0: Seq<Handed>,
    mode1: AddrMode,
    cursor1: Option<Cursor>,
    sent1: Seq<Handed>,
) -> bool {
    exists|n: int|
        #[trigger] ran_to(steps, n, r) && mode1 == settle_addr_mode(mode0, steps.take(n)) && cursor1
            == settle_cursor(cursor0, steps.take(n)) && sent1 == sent0 + handed_over(steps, n, r)
}

/// Carrying out `steps` from the addressing mode `mode0`, on an interface that had been handed
/// `sent0`, can have ended in `r` with `mode1` and the interface having been handed `sent1`:
/// the steps carried out are all of them if every transfer went through, else those before
/// the transfer that failed; the interface was handed their transfers and the failed one,
/// nothing else, and the addressing mode follows their changes.
pub open spec fn ran_driver(
    steps: Seq<StepView>,
    r: Result<(), DisplayError>,
    mode0: AddrMode,
    sent0: Seq<Handed>,
    mode1: AddrMode,
    sent1: Seq<Handed>,
) -> bool {
    exists|n: int|
        #[trigger] ran_to(steps, n, r) && mode1 == settle_addr_mode(mode0, steps.take(n))
            && sent1 == sent0 + handed_over(steps, n, r)
}

/// Carrying out `steps` on an interface that had been handed `sent0` can have ended in `r`
/// with the interface having been handed `sent1`: the transfers of the steps carried out, all
/// of them if every transfer went through, else up to and including the one that failed.
pub open spec fn sent_through(
    steps: Seq<StepView>,
    r: Result<(), DisplayError>,
    sent0: Seq<Handed>,
    sent1: Seq<Handed>,
) -> bool {
    exists|n: int| #[trigger] ran_to(steps, n, r) && sent1 == sent0 + handed_over(steps, n, r)
}

/// What was carried out with any state handed the interface what `sent_through` says.
pub proof fn lemma_carried_out_sent_through(
    steps: Seq<StepView>,
    r: Result<(), DisplayError>,
    mode0: AddrMode,
    cursor0: Option<Cursor>,
    sent0: Seq<Handed>,
    mode1: AddrMode,
    cursor1: Option<Cursor>,
    sent1: Seq<Handed>,
)
    requires
        carried_out(steps, r, mode0, cursor0, sent0, mode1, cursor1, sent1),
    ensures
        sent_through(steps, r, sent0, sent1),
{
    let n = choose|n: int|
        #[trigger] ran_to(steps, n, r) && mode1 == settle_addr_mode(mode0, steps.take(n))
            && cursor1 == settle_cursor(cursor0, steps.take(n)) && sent1 == sent0
            + handed_over(steps, n, r);
    assert(ran_to(steps, n, r));
}

/// Hand the transfers of `steps` to `iface` in order, stopping at the first that fails and
/// returning its error.
pub fn send_steps<I: DisplayInterface>(iface: &mut I, steps: &Vec<Step>) -> (r: Result<
    (),
    DisplayError,
>)
    ensures
        sent_through(view_steps(steps@), r, old(iface).sent(), final(iface).sent()),
{
    let mut mode = AddrMode::Page;
    let mut cursor: Option<Cursor> = None;
    let ghost sent0 = iface.sent();
    let r = execute(iface, steps, &mut mode, &mut cursor);
    proof {
        lemma_carried_out_sent_through(
            view_steps(steps@),
            r,
            AddrMode::Page,
            None,
            sent0,
            mode,
            cursor,
            iface.sent(),
        );
    }
    r
}

/// An operation that went through handed the interface every transfer of its program, in
/// order; one of commands only, every step of it.
pub proof fn lemma_ran_ok_sent_all(
    steps: Seq<StepView>,
    mode0: AddrMode,
    sent0: Seq<Handed>,
    mode1: AddrMode,
    sent1: Seq<Handed>,
)
    requires
        ran_driver(steps, Ok(()), mode0, sent0, mode1, sent1),
    ensures
        sent1 == sent0 + answered_ok(transfers(steps)),
        only_commands(steps) ==> sent1 == sent0 + answered_ok(steps),
{
    let n = choose|n: int|
        #[trigger] ran_to(steps, n, Ok(())) && mode1 == settle_addr_mode(mode0, steps.take(n))
            && sent1 == sent0 + handed_over(steps, n, Ok(()));
    assert(steps.take(n) =~= steps);
    if only_commands(steps) {
        assert forall|i: int| 0 <= i < steps.len() implies (#[trigger] steps[i]).is_transfer() by {
            assert(steps[i] is Commands);
        }
        lemma_transfers_of_transfers(steps);
    }
}

/// Appending one step to a program appends its view.
pub proof fn lemma_view_steps_push(steps: Seq<Step>, s: Step)
    ensures
        view_steps(steps.push(s)) == view_steps(steps).push(s@),
{
    assert(view_steps(steps.push(s)) =~= view_steps(steps).push(s@));
}

/// The step that sends command `c`.
pub fn command_step(c: Command) -> (r: Step)
    ensures
        r@ == command(c),
{
    Step::Commands(c.encode())
}

/// Append the step that sends command `c`.
pub fn push_command(steps: &mut Vec<Step>, c: Command)
    ensures
        view_steps(final(steps)@) == view_steps(old(steps)@).push(command(c)),
{
    let s = command_step(c);
    proof {
        lemma_view_steps_push(steps@, s);
    }
    steps.push(s);
}

/// Append a step.
pub fn push_step(steps: &mut Vec<Step>, s: Step)
    ensures
        view_steps(final(steps)@) == view_steps(old(steps)@).push(s@),
{
    proof {
        lemma_view_steps_push(steps@, s);
    }
    steps.push(s);
}

/// Append all steps of `more`.
pub fn append_steps(steps: &mut Vec<Step>, more: Vec<Step>)
    ensures
        view_steps(final(steps)@) == view_steps(old(steps)@) + view_steps(more@),
{
    let mut more = more;
    let ghost a = steps@;
    let ghost b = more@;
    steps.append(&mut more);
    assert(view_steps(a + b) =~= view_steps(a) + view_steps(b));
}

/// Run the program `steps`: hand each transfer to `iface` in order and make each state
/// change, stopping at the first transfer that fails and returning its error.
pub fn execute<I: DisplayInterface>(
    iface: &mut I,
    steps: &Vec<Step>,
    addr_mode: &mut AddrMode,
    cursor: &mut Option<Cursor>,
) -> (r: Result<(), DisplayError>)
    ensures
        carried_out(
            view_steps(steps@),
            r,
            *old(addr_mode),
            *old(cursor),
            old(iface).sent(),
            *final(addr_mode),
            *final(cursor),
            final(iface).sent(),
        ),
{
    let ghost mode0 = *addr_mode;
    let ghost cursor0 = *cursor;
    let ghost sent0 = iface.sent();
    let ghost v = view_steps(steps@);
    let mut result: Result<(), DisplayError> = Ok(());
    let mut i: usize = 0;
    while i < steps.len() && result.is_ok()
        invariant
            i <= steps.len(),
            v == view_steps(steps@),
            result is Ok ==> *addr_mode == settle_addr_mode(mode0, v.take(i as int)) && *cursor
                == settle_cursor(cursor0, v.take(i as int)) && iface.sent() == sent0 + answered_ok(
                transfers(v.take(i as int)),
            ),
            result is Err ==> carried_out(
                v,
                result,
                mode0,
                cursor0,
                sent0,
                *addr_mode,
                *cursor,
                iface.sent(),
            ),
        decreases steps.len() - i,
    {
        proof {
            assert(v.take(i + 1).drop_last() =~= v.take(i as int));
            assert(v.take(i + 1).last() == steps@[i as int]@);
            assert(v[i as int] == steps@[i as int]@);
            assert(v.take(i + 1) =~= v.take(i as int).push(v[i as int]));
        }
        match &steps[i] {
            Step::Commands(bytes) => {
                result = iface.send_commands(bytes.as_slice());
            },
            Step::Data(bytes) => {
                result = iface.send_data(bytes.as_slice());
            },
            Step::AddrMode(m) => {
                *addr_mode = *m;
            },
            Step::Cursor(c) => {
                *cursor = Some(*c);
            },
        }
        proof {
            let done = transfers(v.take(i as int));
            assert(answered_ok(done.push(v[i as int])) =~= answered_ok(done).push(
                (v[i as int], Ok(())),
            ));
            if result is Ok {
                assert(result == Ok::<(), DisplayError>(result->Ok_0));
                assert(result->Ok_0 == ());
                if v[i as int].is_transfer() {
                    assert(transfers(v.take(i + 1)) == done.push(v[i as int]));
                    assert(sent0 + answered_ok(done).push((v[i as int], Ok(()))) =~= (sent0
                        + answered_ok(done)).push((v[i as int], Ok(()))));
                } else {
                    assert(transfers(v.take(i + 1)) == done);
                }
                assert(iface.sent() == sent0 + answered_ok(transfers(v.take(i + 1))));
            } else {
                assert(v[i as int].is_transfer());
                assert(ran_to(v, i as int, result));
                assert(handed_over(v, i as int, result) == answered_ok(done).push(
                    (v[i as int], result),
                ));
                assert(sent0 + answered_ok(done).push((v[i as int], result)) =~= (sent0
                    + answered_ok(done)).push((v[i as int], result)));
                assert(iface.sent() == sent0 + handed_over(v, i as int, result));
            }
        }
        i = i + 1;
    }
    proof {
        if result is Ok {
            assert(v.take(steps.len() as int) =~= v);
            assert(ran_to(v, v.len() as int, result));
        }
    }
    result
}

/// The bytes `buf[start..end]`, copied.
pub fn copy_range(buf: &[u8], start: usize, end: usize) -> (r: Vec<u8>)
    requires
        start <= end <= buf@.len(),
    ensures
        r@ == buf@.subrange(start as int, end as int),
{
    let mut out: Vec<u8> = Vec::new();
    let mut i: usize = start;
    while i < end
        invariant
            start <= i <= end <= buf@.len(),
            out@ == buf@.subrange(start as int, i as int),
        decreases end - i,
    {
        out.push(buf[i]);
        assert(buf@.subrange(start as int, i + 1) =~= buf@.subrange(start as int, i as int).push(
            buf@[i as int],
        ));
        i = i + 1;
    }
    out
}

/// A program that changes no addressing mode leaves it where it was, after any prefix.
pub proof fn lemma_settle_without_mode_changes(start: AddrMode, steps: Seq<StepView>, k: int)
    requires
        0 <= k <= steps.len(),
        forall|i: int| 0 <= i < k ==> !(#[trigger] steps[i] is AddrMode),
    ensures
        settle_addr_mode(start, steps.take(k)) == start,
    decreases k,
{
    if k > 0 {
        assert(steps.take(k).drop_last() =~= steps.take(k - 1));
        lemma_settle_without_mode_changes(start, steps, k - 1);
    }
}

/// Running a program that changes no addressing mode leaves it where it was.
pub proof fn lemma_ran_without_mode_changes(
    steps: Seq<StepView>,
    r: Result<(), DisplayError>,
    mode0: AddrMode,
    sent0: Seq<Handed>,
    mode1: AddrMode,
    sent1: Seq<Handed>,
)
    requires
        ran_driver(steps, r, mode0, sent0, mode1, sent1),
        no_mode_changes(steps),
    ensures
        mode1 == mode0,
{
    let n = choose|n: int|
        #[trigger] ran_to(steps, n, r) && mode1 == settle_addr_mode(mode0, steps.take(n))
            && sent1 == sent0 + handed_over(steps, n, r);
    lemma_settle_without_mode_changes(mode0, steps, n);
}

/// Number of chunks of `width` bytes (the last one possibly shorter) that a buffer of
/// `len` bytes splits into.
pub open spec fn chunk_count(len: int, width: int) -> int {
    len / width + if len % width == 0 {
        0int
    } else {
        1int
    }
}

/// Number of pages (chunks of `width` bytes) that a bounded draw of the area from
/// `upper_left` to `lower_right` sends: those from the page of the upper edge to the page of
/// the lower edge, as far as the buffer reaches.
pub open spec fn pages_drawn(len: int, width: int, upper_left: (u8, u8), lower_right: (u8, u8)) -> int {
    let first = upper_left.1 / 8;
    let wanted = (lower_right.1 - upper_left.1) / 8 + 1;
    let available = chunk_count(len, width);
    if first >= available {
        0
    } else if wanted <= available - first {
        wanted
    } else {
        available - first
    }
}

/// The inputs on which a bounded draw neither divides by zero nor slices out of bounds: the
/// area is not upside down, and the columns from `upper_left.0` to `lower_right.0` lie in
/// every page that is sent.
pub open spec fn chunks_drawable(len: int, width: int, upper_left: (u8, u8), lower_right: (u8, u8)) -> bool {
    &&& width > 0
    &&& upper_left.1 <= lower_right.1
    &&& pages_drawn(len, width, upper_left, lower_right) > 0 ==> {
        &&& upper_left.0 <= lower_right.0
        &&& lower_right.0 <= width
        &&& (upper_left.1 / 8 + pages_drawn(len, width, upper_left, lower_right) - 1) * width
            + lower_right.0 <= len
    }
}

/// Whether a bounded draw of the area from `upper_left` to `lower_right` of a buffer of
/// `len` bytes laid out in pages of `width` bytes stays within the buffer.
pub fn chunks_drawable_check(len: usize, width: usize, upper_left: (u8, u8), lower_right: (u8, u8)) -> (r: bool)
    ensures
        r == chunks_drawable(len as int, width as int, upper_left, lower_right),
{
    if width == 0 || upper_left.1 > lower_right.1 {
        return false;
    }
    let first = (upper_left.1 / 8) as u128;
    let wanted = ((lower_right.1 - upper_left.1) / 8) as u128 + 1;
    let available = (len / width) as u128 + if len % width == 0 {
        0
    } else {
        1
    };
    let pages = if first >= available {
        0
    } else if wanted <= available - first {
        wanted
    } else {
        available - first
    };
    assert(pages == pages_drawn(len as int, width as int, upper_left, lower_right));
    if pages == 0 {
        return true;
    }
    if upper_left.0 > lower_right.0 || lower_right.0 as usize > width {
        return false;
    }
    let last = first + pages - 1;
    assert(last <= len / width);
    assert(last * (width as u128) <= len) by (nonlinear_arith)
        requires
            last <= len / width,
            width > 0,
    ;
    last * (width as u128) + lower_right.0 as u128 <= len as u128
}

/// The data transfers of a bounded draw: for each page sent, the bytes of the columns from
/// `upper_left.0` up to (not including) `lower_right.0`.
pub open spec fn chunks_plan(buf: Seq<u8>, width: int, upper_left: (u8, u8), lower_right: (u8, u8)) -> Seq<StepView> {
    Seq::new(
        pages_drawn(buf.len() as int, width, upper_left, lower_right) as nat,
        |j: int|
            StepView::Data(
                buf.subrange(
                    (upper_left.1 / 8 + j) * width + upper_left.0,
                    (upper_left.1 / 8 + j) * width + lower_right.0,
                ),
            ),
    )
}

/// A bounded draw sends the byte of every column and page row of its area: the byte of
/// column `x` in the page of row `y` goes out in the block of that page, `x - upper_left.0`
/// bytes in, when the area reaches from the page of its top row to that page.
pub proof fn lemma_chunks_cover(
    buf: Seq<u8>,
    width: int,
    upper_left: (u8, u8),
    lower_right: (u8, u8),
    x: int,
    y: int,
)
    requires
        chunks_drawable(buf.len() as int, width, upper_left, lower_right),
        upper_left.0 <= x < lower_right.0,
        upper_left.1 <= y,
        y / 8 - upper_left.1 / 8 <= (lower_right.1 - upper_left.1) / 8,
        0 <= (y / 8) * width + x < buf.len(),
    ensures
        ({
            let plan = chunks_plan(buf, width, upper_left, lower_right);
            let j = y / 8 - upper_left.1 / 8;
            &&& 0 <= j < plan.len()
            &&& plan[j] is Data
            &&& plan[j]->Data_0.len() == lower_right.0 - upper_left.0
            &&& plan[j]->Data_0[x - upper_left.0] == buf[(y / 8) * width + x]
        }),
{
    let len = buf.len() as int;
    let first = upper_left.1 / 8;
    let j = y / 8 - first;
    let page = y / 8;
    assert(width > 0);
    assert(j >= 0) by (nonlinear_arith)
        requires
            upper_left.1 <= y,
            first == upper_left.1 / 8,
            j == y / 8 - first,
    ;
    // The page of `y` has a byte in the buffer, so the buffer reaches into that page.
    assert(page < chunk_count(len, width)) by (nonlinear_arith)
        requires
            width > 0,
            0 <= page,
            0 <= x,
            page * width + x < len,
    {
        if page >= chunk_count(len, width) {
            assert(len == width * (len / width) + len % width);
            if len % width == 0 {
                assert(page >= len / width);
                assert(page * width >= (len / width) * width);
            } else {
                assert(page >= len / width + 1);
                assert(page * width >= (len / width + 1) * width);
            }
        }
    }
    let pages = pages_drawn(len, width, upper_left, lower_right);
    assert(j < pages);
    assert((first + j) * width + lower_right.0 <= len) by (nonlinear_arith)
        requires
            (first + pages - 1) * width + lower_right.0 <= len,
            0 <= j < pages,
            width > 0,
    ;
    assert((first + j) * width + x == page * width + x);
}

/// The data transfers that send the area from `upper_left` to `lower_right` of a buffer laid
/// out in pages of `disp_width` bytes.
pub fn chunk_steps(buffer: &[u8], disp_width: usize, upper_left: (u8, u8), lower_right: (u8, u8)) -> (r: Vec<Step>)
    requires
        chunks_drawable(buffer@.len() as int, disp_width as int, upper_left, lower_right),
    ensures
        view_steps(r@) == chunks_plan(buffer@, disp_width as int, upper_left, lower_right),
{
    let ghost plan = chunks_plan(buffer@, disp_width as int, upper_left, lower_right);
    // Divide by 8 since each row is actually 8 pixels tall
    let num_pages = ((lower_right.1 - upper_left.1) / 8) as usize + 1;
    // Each page is 8 bits tall, so calculate which page number to start at (rounded down) from
    // the top of the display
    let starting_page = (upper_left.1 / 8) as usize;
    assert(buffer.len() % disp_width != 0 ==> buffer.len() / disp_width < buffer.len())
        by (nonlinear_arith)
        requires
            disp_width > 0,
    ;
    let available = buffer.len() / disp_width + if buffer.len() % disp_width == 0 {
        0
    } else {
        1
    };
    let count = if starting_page >= available {
        0
    } else if num_pages <= available - starting_page {
        num_pages
    } else {
        available - starting_page
    };
    assert(count == pages_drawn(buffer@.len() as int, disp_width as int, upper_left, lower_right));
    // Calculate start and end X coordinates for each page
    let page_lower = upper_left.0 as usize;
    let page_upper = lower_right.0 as usize;
    let len = buffer.len();
    let mut steps: Vec<Step> = Vec::new();
    let mut j: usize = 0;
    while j < count
        invariant
            j <= count,
            len == buffer@.len(),
            count == pages_drawn(buffer@.len() as int, disp_width as int, upper_left, lower_right),
            chunks_drawable(buffer@.len() as int, disp_width as int, upper_left, lower_right),
            starting_page == upper_left.1 / 8,
            page_lower == upper_left.0,
            page_upper == lower_right.0,
            plan == chunks_plan(buffer@, disp_width as int, upper_left, lower_right),
            view_steps(steps@) == plan.take(j as int),
        decreases count - j,
    {
        proof {
            let last = (starting_page + count - 1) as int;
            let cur = (starting_page + j) as int;
            assert(cur <= last);
            assert(cur * disp_width <= last * disp_width) by (nonlinear_arith)
                requires
                    cur <= last,
                    disp_width >= 0,
            ;
            assert(last * disp_width + page_upper <= buffer@.len());
            assert(cur * disp_width + page_upper <= buffer@.len());
        }
        let base = (starting_page + j) * disp_width;
        let data = copy_range(buffer, base + page_lower, base + page_upper);
        push_step(&mut steps, Step::Data(data));
        assert(plan.take(j + 1) =~= plan.take(j as int).push(plan[j as int]));
        j = j + 1;
    }
    assert(plan.take(count as int) =~= plan);
    steps
}

/// Every step of the program is a batch of commands.
pub open spec fn only_commands(steps: Seq<StepView>) -> bool {
    forall|i: int| 0 <= i < steps.len() ==> #[trigger] steps[i] is Commands
}

/// No step of the program moves the terminal cursor.
pub open spec fn no_cursor_moves(steps: Seq<StepView>) -> bool {
    forall|i: int| 0 <= i < steps.len() ==> !(#[trigger] steps[i] is Cursor)
}

/// Two programs of commands, one after the other, are one of commands.
pub proof fn lemma_only_commands_concat(a: Seq<StepView>, b: Seq<StepView>)
    requires
        only_commands(a),
        only_commands(b),
    ensures
        only_commands(a + b),
{
    assert forall|i: int| 0 <= i < (a + b).len() implies #[trigger] (a + b)[i] is Commands by {
        if i < a.len() {
            assert((a + b)[i] == a[i]);
        } else {
            assert((a + b)[i] == b[i - a.len()]);
        }
    }
}

/// A program of commands changes no addressing mode and moves no cursor.
pub proof fn lemma_only_commands_no_changes(a: Seq<StepView>)
    requires
        only_commands(a),
    ensures
        no_mode_changes(a),
        no_cursor_moves(a),
{
    assert forall|i: int| 0 <= i < a.len() implies !(#[trigger] a[i] is AddrMode) by {
        assert(a[i] is Commands);
    }
    assert forall|i: int| 0 <= i < a.len() implies !(#[trigger] a[i] is Cursor) by {
        assert(a[i] is Commands);
    }
}

/// No step of the program changes the addressing mode.
pub open spec fn no_mode_changes(steps: Seq<StepView>) -> bool {
    forall|i: int| 0 <= i < steps.len() ==> !(#[trigger] steps[i] is AddrMode)
}

/// A program of one step that is no change of addressing mode changes none.
pub proof fn lemma_no_mode_changes_one(a: StepView)
    requires
        !(a is AddrMode),
    ensures
        no_mode_changes(seq![a]),
{
    let s = seq![a];
    assert forall|i: int| 0 <= i < s.len() implies !(#[trigger] s[i] is AddrMode) by {
        assert(i == 0);
    }
}

/// A program of two steps that are no changes of addressing mode changes none.
pub proof fn lemma_no_mode_changes_two(a: StepView, b: StepView)
    requires
        !(a is AddrMode),
        !(b is AddrMode),
    ensures
        no_mode_changes(seq![a, b]),
{
    let s = seq![a, b];
    assert forall|i: int| 0 <= i < s.len() implies !(#[trigger] s[i] is AddrMode) by {
        assert(i == 0 || i == 1);
    }
}

/// Commands change no addressing mode.
pub proof fn lemma_commands_no_mode_changes(cs: Seq<Command>)
    ensures
        no_mode_changes(commands(cs)),
{
}

/// Two programs that change no addressing mode, one after the other, change none.
pub proof fn lemma_no_mode_changes_concat(a: Seq<StepView>, b: Seq<StepView>)
    requires
        no_mode_changes(a),
        no_mode_changes(b),
    ensures
        no_mode_changes(a + b),
{
    assert forall|i: int| 0 <= i < (a + b).len() implies !(#[trigger] (a + b)[i] is AddrMode) by {
        if i < a.len() {
            assert((a + b)[i] == a[i]);
        } else {
            assert((a + b)[i] == b[i - a.len()]);
        }
    }
}

/// Running a program whose only change of addressing mode is its last step, to `mode`,
/// ends in `mode` when every transfer succeeds, and leaves the mode where it was otherwise.
pub proof fn lemma_ran_mode_change_last(
    body: Seq<StepView>,
    mode: AddrMode,
    r: Result<(), DisplayError>,
    mode0: AddrMode,
    sent0: Seq<Handed>,
    mode1: AddrMode,
    sent1: Seq<Handed>,
)
    requires
        no_mode_changes(body),
        ran_driver(body.push(StepView::AddrMode(mode)), r, mode0, sent0, mode1, sent1),
    ensures
        mode1 == if r is Ok {
            mode
        } else {
            mode0
        },
{
    let steps = body.push(StepView::AddrMode(mode));
    let n = choose|n: int|
        #[trigger] ran_to(steps, n, r) && mode1 == settle_addr_mode(mode0, steps.take(n))
            && sent1 == sent0 + handed_over(steps, n, r);
    match r {
        Ok(()) => {
            assert(steps.take(n) =~= steps);
            assert(steps.last() == StepView::AddrMode(mode));
        },
        Err(_) => {
            assert(n < body.len());
            assert(steps.take(n) =~= body.take(n));
            lemma_settle_without_mode_changes(mode0, body, n);
        },
    }
}

/// What was carried out with a terminal cursor was carried out by the driver.
pub proof fn lemma_carried_out_ran_driver(
    steps: Seq<StepView>,
    r: Result<(), DisplayError>,
    mode0: AddrMode,
    cursor0: Option<Cursor>,
    sent0: Seq<Handed>,
    mode1: AddrMode,
    cursor1: Option<Cursor>,
    sent1: Seq<Handed>,
)
    requires
        carried_out(steps, r, mode0, cursor0, sent0, mode1, cursor1, sent1),
    ensures
        ran_driver(steps, r, mode0, sent0, mode1, sent1),
{
    let n = choose|n: int|
        #[trigger] ran_to(steps, n, r) && mode1 == settle_addr_mode(mode0, steps.take(n))
            && cursor1 == settle_cursor(cursor0, steps.take(n)) && sent1 == sent0
            + handed_over(steps, n, r);
    assert(ran_to(steps, n, r));
}

/// `n` bytes of `value`.
pub open spec fn filled(n: nat, value: u8) -> Seq<u8> {
    Seq::new(n, |i: int| value)
}

/// A buffer of `n` bytes of `value`.
pub fn filled_vec(n: usize, value: u8) -> (r: Vec<u8>)
    ensures
        r@ == filled(n as nat, value),
{
    let mut v: Vec<u8> = Vec::new();
    let mut i: usize = 0;
    while i < n
        invariant
            i <= n,
            v@ == filled(i as nat, value),
        decreases n - i,
    {
        v.push(value);
        assert(v@ =~= filled((i + 1) as nat, value));
        i = i + 1;
    }
    v
}

} // verus!

