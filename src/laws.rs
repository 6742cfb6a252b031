use vstd::prelude::*;
use crate::consts::{BUFFER_SIZE, ST7567_ENTER_RMWMODE, ST7567_EXIT_RMWMODE};
use crate::driver::{page_bytes, page_program, page_setup, pages_program, reset_program, show_program};
use crate::protocol::{
    command_program, data_program, lemma_written_concat, lemma_written_frame, written, Line,
    PinState, StepView,
};
use crate::transfer::Transfer;

verus! {

/// Writing `n` pages takes four steps per page.
proof fn lemma_pages_len(buf: Seq<u8>, n: nat)
    ensures
        pages_program(buf, n).len() == 4 * n,
    decreases n,
{
    if n > 0 {
        lemma_pages_len(buf, (n - 1) as nat);
    }
}

/// The first `m` pages of a run of `n` pages are the run of `m` pages.
proof fn lemma_pages_prefix(buf: Seq<u8>, m: nat, n: nat)
    requires
        m <= n,
    ensures
        pages_program(buf, n).take(4 * m as int) == pages_program(buf, m),
    decreases n,
{
    lemma_pages_len(buf, n);
    if m == n {
        assert(pages_program(buf, n).take(4 * m as int) =~= pages_program(buf, m));
    } else {
        lemma_pages_len(buf, (n - 1) as nat);
        lemma_pages_prefix(buf, m, (n - 1) as nat);
        assert(pages_program(buf, n).take(4 * m as int) =~= pages_program(buf, (n - 1) as nat).take(
            4 * m as int,
        ));
    }
}

/// Page `p` stands at steps `4 * p .. 4 * p + 4` of a run of `n > p` pages.
proof fn lemma_page_in_pages(buf: Seq<u8>, p: int, n: nat)
    requires
        0 <= p < n,
    ensures
        pages_program(buf, n).subrange(4 * p, 4 * p + 4) == page_program(buf, p),
{
    lemma_pages_prefix(buf, (p + 1) as nat, n);
    lemma_pages_len(buf, n);
    lemma_pages_len(buf, p as nat);
    let pre = pages_program(buf, n).take(4 * (p + 1));
    assert(pages_program(buf, n).subrange(4 * p, 4 * p + 4) =~= pre.subrange(4 * p, 4 * p + 4));
    assert(pre.subrange(4 * p, 4 * p + 4) =~= page_program(buf, p));
}

/// Page `p` holds 128 bytes of the framebuffer.
proof fn lemma_page_bytes_len(buf: Seq<u8>, p: int)
    requires
        buf.len() == BUFFER_SIZE,
        0 <= p < 8,
    ensures
        page_bytes(buf, p).len() == 128,
{
    assert(p * 128 + 128 <= 1024) by (nonlinear_arith)
        requires p < 8;
}

/// The bytes written by a run of `n` pages: 131 per page, each page's setup
/// frame followed by its data.
proof fn lemma_pages_written(buf: Seq<u8>, n: nat)
    requires
        buf.len() == BUFFER_SIZE,
        n <= 8,
    ensures
        written(pages_program(buf, n)).len() == 131 * n,
        forall|p: int|
            0 <= p < n ==> #[trigger] written(pages_program(buf, n)).subrange(
                131 * p,
                131 * p + 131,
            ) == page_setup(p) + page_bytes(buf, p),
    decreases n,
{
    if n == 0 {
        assert(written(pages_program(buf, 0)) =~= Seq::<u8>::empty());
    } else {
        let k = (n - 1) as nat;
        lemma_pages_written(buf, k);
        let before = written(pages_program(buf, k));
        lemma_written_concat(pages_program(buf, k), page_program(buf, k as int));
        lemma_written_concat(command_program(page_setup(k as int)), data_program(page_bytes(buf, k as int)));
        lemma_written_frame(page_setup(k as int));
        lemma_written_frame(page_bytes(buf, k as int));
        lemma_page_bytes_len(buf, k as int);
        let all = written(pages_program(buf, n));
        assert(all == before + (page_setup(k as int) + page_bytes(buf, k as int)));
        assert forall|p: int| 0 <= p < n implies #[trigger] all.subrange(131 * p, 131 * p + 131)
            == page_setup(p) + page_bytes(buf, p) by {
            if p < k {
                assert(all.subrange(131 * p, 131 * p + 131) =~= before.subrange(
                    131 * p,
                    131 * p + 131,
                ));
            } else {
                assert(all.subrange(131 * p, 131 * p + 131) =~= page_setup(p) + page_bytes(buf, p));
            }
        }
    }
}

/// Flushing a framebuffer sends, in order: the byte that enters
/// read-modify-write mode; for each page in ascending order a command frame of
/// three setup bytes and a data frame of the page's 128 bytes; the byte that
/// leaves the mode. That is 1050 bytes in all.
pub proof fn show_writes_every_page(buf: Seq<u8>)
    requires
        buf.len() == BUFFER_SIZE,
    ensures
        show_program(buf).len() == 36,
        show_program(buf).take(2) == command_program(seq![ST7567_ENTER_RMWMODE]),
        forall|p: int|
            0 <= p < 8 ==> #[trigger] show_program(buf).subrange(2 + 4 * p, 6 + 4 * p)
                == command_program(page_setup(p)) + data_program(page_bytes(buf, p)),
        show_program(buf).skip(34) == command_program(seq![ST7567_EXIT_RMWMODE]),
        written(show_program(buf)).len() == 1050,
        written(show_program(buf))[0] == ST7567_ENTER_RMWMODE,
        forall|p: int|
            0 <= p < 8 ==> #[trigger] written(show_program(buf)).subrange(1 + 131 * p, 132 + 131 * p)
                == page_setup(p) + page_bytes(buf, p),
        written(show_program(buf))[1049] == ST7567_EXIT_RMWMODE,
{
    let enter = command_program(seq![ST7567_ENTER_RMWMODE]);
    let exit = command_program(seq![ST7567_EXIT_RMWMODE]);
    let pages = pages_program(buf, 8);
    let prog = show_program(buf);
    lemma_pages_len(buf, 8);
    assert(prog.take(2) =~= enter);
    assert(prog.skip(34) =~= exit);
    assert forall|p: int| 0 <= p < 8 implies #[trigger] prog.subrange(2 + 4 * p, 6 + 4 * p)
        == command_program(page_setup(p)) + data_program(page_bytes(buf, p)) by {
        lemma_page_in_pages(buf, p, 8);
        assert(prog.subrange(2 + 4 * p, 6 + 4 * p) =~= pages.subrange(4 * p, 4 * p + 4));
    }
    lemma_written_concat(enter, pages);
    lemma_written_concat(enter + pages, exit);
    lemma_written_frame(seq![ST7567_ENTER_RMWMODE]);
    lemma_written_frame(seq![ST7567_EXIT_RMWMODE]);
    lemma_pages_written(buf, 8);
    let middle = written(pages);
    let all = written(prog);
    assert(all == seq![ST7567_ENTER_RMWMODE] + middle + seq![ST7567_EXIT_RMWMODE]);
    assert forall|p: int| 0 <= p < 8 implies #[trigger] all.subrange(1 + 131 * p, 132 + 131 * p)
        == page_setup(p) + page_bytes(buf, p) by {
        assert(all.subrange(1 + 131 * p, 132 + 131 * p) =~= middle.subrange(131 * p, 131 * p + 131));
    }
}

/// A reset whose first line change fails goes no further: the only step
/// tried was driving the reset line low, and nothing is left pending.
pub proof fn reset_stops_when_low_fails<PE, SE>(t: Transfer<PE, SE>)
    requires
        t.wf(),
        t.program() == reset_program(),
        t.performed() == 0,
        t.fault() is Some,
    ensures
        t.finished(),
        t.attempted() == seq![StepView::SetPin(Line::Reset, PinState::Low)],
{
    assert(t.attempted() =~= seq![StepView::SetPin(Line::Reset, PinState::Low)]);
}

/// A failure of the data write of page `p` (step `4 * p + 5` of a flush)
/// ends the flush there: the steps tried are the enter frame and pages
/// `0 ..= p`, so no step of a later page and not the exit frame.
pub proof fn show_stops_at_failed_page_write<PE, SE>(buf: Seq<u8>, p: int, t: Transfer<PE, SE>)
    requires
        buf.len() == BUFFER_SIZE,
        0 <= p < 8,
        t.wf(),
        t.program() == show_program(buf),
        t.performed() == 4 * p + 5,
        t.fault() is Some,
    ensures
        t.finished(),
        t.attempted() == command_program(seq![ST7567_ENTER_RMWMODE]) + pages_program(
            buf,
            (p + 1) as nat,
        ),
        t.attempted().last() == StepView::Write(page_bytes(buf, p)),
{
    let enter = command_program(seq![ST7567_ENTER_RMWMODE]);
    let pages = pages_program(buf, 8);
    lemma_pages_len(buf, 8);
    lemma_pages_len(buf, p as nat);
    lemma_pages_prefix(buf, (p + 1) as nat, 8);
    assert(t.attempted() =~= enter + pages.take(4 * (p + 1)));
}

} // verus!
