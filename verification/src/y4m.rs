//! The Y4M stream: a header line followed by one record per frame.
use crate::frame::frame_record;
use crate::generator::{generate_frame, options_error, valid_options, GeneratorOptions};
use crate::pattern::pattern_frame;
use vstd::prelude::*;
use vstd::string::StringSliceAdditionalSpecFns;

verus! {

/// Decimal digits of `n` in ASCII, most significant first, without leading
/// zeros.
pub open spec fn decimal(n: nat) -> Seq<u8>
    decreases n,
{
    if n < 10 {
        seq![(48 + n) as u8]
    } else {
        decimal(n / 10).push((48 + n % 10) as u8)
    }
}

/// The Y4M stream header for a `width` by `height` 10-bit 4:2:0 stream at 30
/// frames per second, progressive, with square pixels.
pub open spec fn y4m_header(width: nat, height: nat) -> Seq<u8> {
    "YUV4MPEG2 W".spec_bytes() + decimal(width) + " H".spec_bytes() + decimal(height)
        + " F30:1 Ip A0:0 C420p10 XYSCSS=420P10\n".spec_bytes()
}

/// `count` copies of `record`.
pub open spec fn repeated(record: Seq<u8>, count: nat) -> Seq<u8>
    decreases count,
{
    if count == 0 {
        Seq::empty()
    } else {
        repeated(record, (count - 1) as nat) + record
    }
}

/// The whole Y4M stream for `options`.
pub open spec fn y4m_stream(options: GeneratorOptions) -> Seq<u8> {
    y4m_header(options.width as nat, options.height as nat) + repeated(
        frame_record(pattern_frame(options.transfer, options.width as nat, options.height as nat)),
        options.frames as nat,
    )
}

/// Appends `bytes` to `out`.
fn push_bytes(out: &mut Vec<u8>, bytes: &[u8])
    ensures
        final(out)@ == old(out)@ + bytes@,
{
    let mut i: usize = 0;
    while i < bytes.len()
        invariant
            i <= bytes@.len(),
            out@ == old(out)@ + bytes@.take(i as int),
        decreases bytes@.len() - i,
    {
        out.push(bytes[i]);
        proof {
            assert(bytes@.take(i + 1) =~= bytes@.take(i as int).push(bytes@[i as int]));
        }
        i = i + 1;
    }
    proof {
        assert(bytes@.take(i as int) =~= bytes@);
    }
}

/// Appends the decimal digits of `n` to `out`.
fn push_decimal(out: &mut Vec<u8>, n: usize)
    ensures
        final(out)@ == old(out)@ + decimal(n as nat),
    decreases n,
{
    if n >= 10 {
        push_decimal(out, n / 10);
    }
    out.push(48 + (n % 10) as u8);
    proof {
        assert(out@ =~= old(out)@ + decimal(n as nat));
    }
}

/// Writes the Y4M stream for `options` to `writer`: the header line, then
/// `options.frames` records of the generated frame. Nothing is written when
/// the options are rejected.
pub fn write_y4m(writer: &mut Vec<u8>, options: GeneratorOptions) -> (r: Result<(), String>)
    requires
        valid_options(options) ==> options.width * options.height <= usize::MAX,
    ensures
        match r {
            Ok(()) => valid_options(options) && final(writer)@ == old(writer)@ + y4m_stream(options),
            Err(e) => {
                &&& !valid_options(options)
                &&& e@ == options_error(options)
                &&& final(writer)@ == old(writer)@
            },
        },
{
    let frame = match generate_frame(options) {
        Ok(frame) => frame,
        Err(message) => {
            return Err(message);
        },
    };
    push_bytes(writer, "YUV4MPEG2 W".as_bytes());
    push_decimal(writer, options.width);
    push_bytes(writer, " H".as_bytes());
    push_decimal(writer, options.height);
    push_bytes(writer, " F30:1 Ip A0:0 C420p10 XYSCSS=420P10\n".as_bytes());
    let ghost header_end = writer@;
    proof {
        assert(header_end =~= old(writer)@ + y4m_header(options.width as nat, options.height as nat));
    }
    let ghost record = frame_record(frame@);
    let mut n: usize = 0;
    while n < options.frames
        invariant
            n <= options.frames,
            writer@ == header_end + repeated(record, n as nat),
            record == frame_record(frame@),
        decreases options.frames - n,
    {
        frame.write_y4m_frame(writer);
        proof {
            assert(writer@ =~= header_end + repeated(record, (n + 1) as nat));
        }
        n = n + 1;
    }
    proof {
        assert(writer@ =~= old(writer)@ + y4m_stream(options));
    }
    Ok(())
}

} // verus!
