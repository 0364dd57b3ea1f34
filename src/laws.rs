use crate::bytes::{enc_list, lemma_enc_list, lemma_u32_at_le, le_bytes, u32_at};
use crate::codec::{
    classes_valid, comment_bytes, comment_of, counts_fit, crate_enc, crate_entries, crates_of,
    enc_decorations, enc_header, enc_info, enc_static, encode, flat, parse, parsed_grid,
    random_seq, spotlight_enc, spotlight_entries, steam_enc, steam_entries, tags_valid, tile_enc,
    u32_enc, u32_seq, spotlights_valid, steams_valid, LevelData, FIXED_BLOCK, VERSION,
};
use crate::coord_map::{lemma_same_entries, lemma_seq_to_map, seq_to_map, unique_keys};
use crate::coords::Position;
use crate::crates::{class_tag, StaticCrate, StaticCrateType};
use crate::level::{
    class_of_tag, grid, grid_wf, DeserializationError, FileTypeError, Level, Steam,
    MAX_SPOTLIGHT_INTENSITY, MAX_STEAM_RANGE,
};
use crate::types::{texture_tag, TextureType, Tile};
use vstd::prelude::*;

verus! {

broadcast use crate::bytes::lemma_le_bytes_len;

/// Where `a + x` opens `d`, `a` opens `d` and `x` follows it.
proof fn lemma_split(d: Seq<u8>, a: Seq<u8>, x: Seq<u8>)
    requires
        (a + x).len() <= d.len(),
        d.subrange(0, (a + x).len() as int) == a + x,
    ensures
        d.subrange(0, a.len() as int) == a,
        d.subrange(a.len() as int, (a.len() + x.len()) as int) == x,
{
    assert(d.subrange(0, a.len() as int) =~= (a + x).subrange(0, a.len() as int));
    assert(d.subrange(a.len() as int, (a.len() + x.len()) as int) =~= (a + x).subrange(
        a.len() as int,
        (a.len() + x.len()) as int,
    ));
}

/// A number whose bytes stand at offset `j` of a window `x` of `d` at `p` is read at `p + j`.
proof fn lemma_field(d: Seq<u8>, p: int, x: Seq<u8>, j: int, n: u32)
    requires
        0 <= p,
        p + x.len() <= d.len(),
        d.subrange(p, p + x.len()) == x,
        0 <= j,
        j + 4 <= x.len(),
        x.subrange(j, j + 4) == le_bytes(n),
    ensures
        u32_at(d, p + j) == n,
{
    assert(d.subrange(p + j, p + j + 4) =~= x.subrange(j, j + 4));
    lemma_u32_at_le(d, p + j, n);
}

/// A window of a window is a window.
proof fn lemma_sub_window(d: Seq<u8>, p: int, x: Seq<u8>, q: int, y: Seq<u8>)
    requires
        0 <= p,
        p + x.len() <= d.len(),
        d.subrange(p, p + x.len()) == x,
        0 <= q,
        q + y.len() <= x.len(),
        x.subrange(q, q + y.len()) == y,
    ensures
        d.subrange(p + q, p + q + y.len()) == y,
{
    assert(d.subrange(p + q, p + q + y.len()) =~= x.subrange(q, q + y.len()));
}

/// Row-major flattening of a grid whose rows are `w` long.
proof fn lemma_flat<T>(g: Seq<Seq<T>>, w: int)
    requires
        w >= 0,
        forall|y: int| 0 <= y < g.len() ==> #[trigger] g[y].len() == w,
    ensures
        flat(g).len() == g.len() * w,
        forall|y: int, x: int|
            0 <= y < g.len() && 0 <= x < w ==> flat(g)[y * w + x] == #[trigger] g[y][x],
    decreases g.len(),
{
    if g.len() == 0 {
        assert(g.len() * w == 0) by (nonlinear_arith)
            requires
                g.len() == 0,
        ;
    } else {
        let p = g.drop_last();
        lemma_flat(p, w);
        assert(flat(g) == flat(p) + g.last());
        assert(flat(g).len() == flat(p).len() + g.last().len());
        assert(g.last().len() == w);
        assert(g.len() * w == p.len() * w + w) by (nonlinear_arith)
            requires
                g.len() == p.len() + 1,
        ;
        assert forall|y: int, x: int| 0 <= y < g.len() && 0 <= x < w implies flat(g)[y * w + x]
            == #[trigger] g[y][x] by {
            if y < p.len() {
                assert(y * w + x < p.len() * w) by (nonlinear_arith)
                    requires
                        0 <= y < p.len(),
                        0 <= x < w,
                ;
                assert(y * w + x >= 0) by (nonlinear_arith)
                    requires
                        y >= 0,
                        x >= 0,
                        w >= 0,
                ;
                assert(p[y] == g[y]);
            } else {
                assert(y * w == p.len() * w);
            }
        }
    }
}

/// The crates of one game mode are pairs of the whole, and every pair of
/// that mode is among them; they keep keys unique.
proof fn lemma_crates_of(s: Seq<(Position, StaticCrateType)>, v: StaticCrate)
    ensures
        forall|i: int|
            0 <= i < crates_of(s, v).len() ==> s.contains(#[trigger] crates_of(s, v)[i])
                && crates_of(s, v)[i].1.crate_variant == v,
        forall|i: int|
            0 <= i < s.len() && (#[trigger] s[i]).1.crate_variant == v ==> crates_of(
                s,
                v,
            ).contains(s[i]),
        unique_keys(s) ==> unique_keys(crates_of(s, v)),
    decreases s.len(),
{
    if s.len() > 0 {
        let p = s.drop_last();
        lemma_crates_of(p, v);
        let c = crates_of(s, v);
        let cp = crates_of(p, v);
        assert forall|i: int| 0 <= i < c.len() implies s.contains(#[trigger] c[i])
            && c[i].1.crate_variant == v by {
            if i < cp.len() {
                assert(c[i] == cp[i]);
                let j = choose|j: int| 0 <= j < p.len() && p[j] == cp[i];
                assert(s[j] == p[j]);
            } else {
                assert(c[i] == s.last());
                assert(s[s.len() - 1] == s.last());
            }
        }
        assert forall|i: int| 0 <= i < s.len() && (#[trigger] s[i]).1.crate_variant == v implies c.contains(
            s[i],
        ) by {
            if i < p.len() {
                assert(p[i] == s[i]);
                let j = choose|j: int| 0 <= j < cp.len() && cp[j] == p[i];
                assert(c[j] == cp[j]);
            } else {
                assert(c[c.len() - 1] == s[i]);
            }
        }
        if unique_keys(s) {
            assert(unique_keys(p));
            assert forall|a: int, b: int| 0 <= a < b < c.len() implies c[a].0 != c[b].0 by {
                if b < cp.len() {
                    assert(c[a] == cp[a] && c[b] == cp[b]);
                } else {
                    assert(c[b] == s.last());
                    assert(c[a] == cp[a]);
                    let j = choose|j: int| 0 <= j < p.len() && p[j] == cp[a];
                    assert(s[j] == p[j]);
                }
            }
        }
    }
}

/// The fields of a record of four numbers whose bytes stand at `p`.
#[verifier::rlimit(40)]
proof fn lemma_fields4(d: Seq<u8>, p: int, a: u32, b: u32, c: u32, e: u32)
    requires
        0 <= p,
        p + 16 <= d.len(),
        d.subrange(p, p + 16) == le_bytes(a) + le_bytes(b) + le_bytes(c) + le_bytes(e),
    ensures
        u32_at(d, p) == a,
        u32_at(d, p + 4) == b,
        u32_at(d, p + 8) == c,
        u32_at(d, p + 12) == e,
{
    let x = le_bytes(a) + le_bytes(b) + le_bytes(c) + le_bytes(e);
    assert(x.subrange(0, 4) =~= le_bytes(a));
    assert(x.subrange(4, 8) =~= le_bytes(b));
    assert(x.subrange(8, 12) =~= le_bytes(c));
    assert(x.subrange(12, 16) =~= le_bytes(e));
    lemma_field(d, p, x, 0, a);
    lemma_field(d, p, x, 4, b);
    lemma_field(d, p, x, 8, c);
    lemma_field(d, p, x, 12, e);
}

/// The fields of a record of three numbers whose bytes stand at `p`.
proof fn lemma_fields3(d: Seq<u8>, p: int, a: u32, b: u32, c: u32)
    requires
        0 <= p,
        p + 12 <= d.len(),
        d.subrange(p, p + 12) == le_bytes(a) + le_bytes(b) + le_bytes(c),
    ensures
        u32_at(d, p) == a,
        u32_at(d, p + 4) == b,
        u32_at(d, p + 8) == c,
{
    let x = le_bytes(a) + le_bytes(b) + le_bytes(c);
    assert(x.subrange(0, 4) =~= le_bytes(a));
    assert(x.subrange(4, 8) =~= le_bytes(b));
    assert(x.subrange(8, 12) =~= le_bytes(c));
    lemma_field(d, p, x, 0, a);
    lemma_field(d, p, x, 4, b);
    lemma_field(d, p, x, 8, c);
}

/// Record `i` of a list of `k`-byte records stored at `o` stands at `o + k * i`.
proof fn lemma_record<T>(d: Seq<u8>, o: int, s: Seq<T>, f: spec_fn(T) -> Seq<u8>, k: int, i: int)
    requires
        k >= 0,
        forall|t: T| #[trigger] f(t).len() == k,
        0 <= o,
        o + k * s.len() <= d.len(),
        d.subrange(o, o + k * s.len()) == enc_list(s, f),
        0 <= i < s.len(),
    ensures
        0 <= o + k * i,
        o + k * i + k <= d.len(),
        d.subrange(o + k * i, o + k * i + k) == f(s[i]),
{
    lemma_enc_list(s, f, k);
    assert(0 <= k * i && k * i + k <= k * s.len()) by (nonlinear_arith)
        requires
            0 <= i < s.len(),
            k >= 0,
    ;
    lemma_sub_window(d, o, enc_list(s, f), k * i, f(s[i]));
}

/// The tiles written from byte 12 are read back, all with known tags.
proof fn lemma_tiles_back(d: Seq<u8>, g: Seq<Seq<Tile>>, w: int, h: int)
    requires
        grid_wf(g),
        w == g[0].len(),
        h == g.len(),
        12 + 12 * (w * h) <= d.len(),
        d.subrange(12, 12 + 12 * (w * h)) == enc_list(flat(g), tile_enc()),
    ensures
        tags_valid(d, w * h),
        parsed_grid(d, w as nat, h as nat) == g,
{
    lemma_flat(g, w);
    let fl = flat(g);
    assert(fl.len() == w * h) by (nonlinear_arith)
        requires
            fl.len() == h * w,
    ;
    assert forall|k: int| 0 <= k < fl.len() implies u32_at(d, 12 + 12 * k) == texture_tag(
        #[trigger] fl[k].texture_type,
    ) && u32_at(d, 12 + 12 * k + 4) == fl[k].id && u32_at(d, 12 + 12 * k + 8) == fl[k].shadow by {
        lemma_record(d, 12, fl, tile_enc(), 12, k);
        lemma_fields3(d, 12 + 12 * k, texture_tag(fl[k].texture_type), fl[k].id, fl[k].shadow);
    }
    assert forall|k: int| 0 <= k < w * h implies #[trigger] u32_at(d, 12 + 12 * k) <= 1 by {
        let y = k / w;
        let x = k % w;
        vstd::arithmetic::div_mod::lemma_fundamental_div_mod(k, w);
        assert(0 <= y < h) by {
            vstd::arithmetic::div_mod::lemma_div_pos_is_pos(k, w);
            vstd::arithmetic::div_mod::lemma_div_is_ordered(k, w * h - 1, w);
            vstd::arithmetic::div_mod::lemma_div_multiples_vanish_fancy(h - 1, w - 1, w);
            assert(w * h - 1 == w * (h - 1) + (w - 1)) by (nonlinear_arith);
        }
        assert(y * w + x == k) by (nonlinear_arith)
            requires
                k == w * y + x,
        ;
        assert(fl[k] == g[y][x]);
        assert(g[y][x].texture_type != TextureType::Shadow);
        assert(fl[k].texture_type == g[y][x].texture_type);
    }
    let pg = parsed_grid(d, w as nat, h as nat);
    assert forall|y: int| 0 <= y < h implies #[trigger] pg[y] =~= g[y] by {
        assert forall|x: int| 0 <= x < w implies pg[y][x] == g[y][x] by {
            let k = y * w + x;
            assert(0 <= k < w * h) by (nonlinear_arith)
                requires
                    k == y * w + x,
                    0 <= y < h,
                    0 <= x < w,
            ;
            assert(fl[k] == g[y][x]);
            assert(g[y][x].texture_type != TextureType::Shadow);
            assert(u32_at(d, 12 + 12 * k) == texture_tag(fl[k].texture_type));
        }
    }
    assert(pg =~= g);
}

proof fn lemma_spotlights_back(d: Seq<u8>, o: int, s: Seq<(Position, u8)>)
    requires
        0 <= o,
        o + 12 * s.len() <= d.len(),
        d.subrange(o, o + 12 * s.len()) == enc_list(s, spotlight_enc()),
        forall|i: int| 0 <= i < s.len() ==> (#[trigger] s[i]).1 <= MAX_SPOTLIGHT_INTENSITY,
    ensures
        spotlight_entries(d, o, s.len()) == s,
        spotlights_valid(d, o, s.len()),
{
    let e = spotlight_entries(d, o, s.len());
    assert forall|i: int| 0 <= i < s.len() implies #[trigger] e[i] == s[i] && u32_at(
        d,
        o + 12 * i + 8,
    ) <= MAX_SPOTLIGHT_INTENSITY by {
        lemma_record(d, o, s, spotlight_enc(), 12, i);
        lemma_fields3(d, o + 12 * i, s[i].0.0, s[i].0.1, s[i].1 as u32);
    }
    assert forall|i: int| 0 <= i < s.len() implies #[trigger] u32_at(d, o + 12 * i + 8)
        <= MAX_SPOTLIGHT_INTENSITY by {
        assert(e[i] == s[i]);
    }
    assert(e =~= s);
}

proof fn lemma_steams_back(d: Seq<u8>, o: int, s: Seq<(Position, Steam)>)
    requires
        0 <= o,
        o + 16 * s.len() <= d.len(),
        d.subrange(o, o + 16 * s.len()) == enc_list(s, steam_enc()),
        forall|i: int| 0 <= i < s.len() ==> (#[trigger] s[i]).1.range <= MAX_STEAM_RANGE,
    ensures
        steam_entries(d, o, s.len()) == s,
        steams_valid(d, o, s.len()),
{
    let e = steam_entries(d, o, s.len());
    assert forall|i: int| 0 <= i < s.len() implies #[trigger] e[i] == s[i] && u32_at(
        d,
        o + 16 * i + 12,
    ) <= MAX_STEAM_RANGE by {
        lemma_record(d, o, s, steam_enc(), 16, i);
        lemma_fields4(
            d,
            o + 16 * i,
            s[i].0.0,
            s[i].0.1,
            s[i].1.angle as u32,
            s[i].1.range as u32,
        );
    }
    assert forall|i: int| 0 <= i < s.len() implies #[trigger] u32_at(d, o + 16 * i + 12)
        <= MAX_STEAM_RANGE by {
        assert(e[i] == s[i]);
    }
    assert(e =~= s);
}

proof fn lemma_crate_back(d: Seq<u8>, o: int, s: Seq<(Position, StaticCrateType)>, v: StaticCrate, i: int)
    requires
        0 <= o,
        o + 16 * s.len() <= d.len(),
        d.subrange(o, o + 16 * s.len()) == enc_list(s, crate_enc()),
        0 <= i < s.len(),
        s[i].1.crate_variant == v,
    ensures
        crate_entries(d, o, s.len(), v)[i] == s[i],
        u32_at(d, o + 16 * i + 8) <= 2,
{
    lemma_record(d, o, s, crate_enc(), 16, i);
    let t = s[i].1;
    lemma_fields4(d, o + 16 * i, s[i].0.0, s[i].0.1, class_tag(t.crate_class), t.crate_type as u32);
    assert(class_of_tag(class_tag(t.crate_class)) == t.crate_class);
}

proof fn lemma_crates_back(d: Seq<u8>, o: int, s: Seq<(Position, StaticCrateType)>, v: StaticCrate)
    requires
        0 <= o,
        o + 16 * s.len() <= d.len(),
        d.subrange(o, o + 16 * s.len()) == enc_list(s, crate_enc()),
        forall|i: int| 0 <= i < s.len() ==> (#[trigger] s[i]).1.crate_variant == v,
    ensures
        crate_entries(d, o, s.len(), v) == s,
        classes_valid(d, o, s.len()),
{
    let e = crate_entries(d, o, s.len(), v);
    assert forall|i: int| 0 <= i < s.len() implies #[trigger] e[i] == s[i] by {
        lemma_crate_back(d, o, s, v, i);
    }
    assert forall|i: int| 0 <= i < s.len() implies #[trigger] u32_at(d, o + 16 * i + 8) <= 2 by {
        lemma_crate_back(d, o, s, v, i);
    }
    assert(e =~= s);
}

proof fn lemma_u32s_back(d: Seq<u8>, o: int, s: Seq<u32>)
    requires
        0 <= o,
        o + 4 * s.len() <= d.len(),
        d.subrange(o, o + 4 * s.len()) == enc_list(s, u32_enc()),
    ensures
        u32_seq(d, o, s.len()) == s,
{
    let e = u32_seq(d, o, s.len());
    assert forall|i: int| 0 <= i < s.len() implies #[trigger] e[i] == s[i] by {
        lemma_record(d, o, s, u32_enc(), 4, i);
        assert(le_bytes(s[i]).subrange(0, 4) =~= le_bytes(s[i]));
        lemma_field(d, o + 4 * i, le_bytes(s[i]), 0, s[i]);
    }
    assert(e =~= s);
}

/// The header and tiles, standing at the start of `d`, are read back.
proof fn lemma_header_back(d: Seq<u8>, l: Level)
    requires
        l.wf(),
        enc_header(l).len() <= d.len(),
        d.subrange(0, enc_header(l).len() as int) == enc_header(l),
    ensures
        enc_header(l).len() == 12 + 12 * (grid(l.tiles)[0].len() * grid(l.tiles).len()),
        u32_at(d, 0) == VERSION,
        u32_at(d, 4) == grid(l.tiles)[0].len(),
        u32_at(d, 8) == grid(l.tiles).len(),
        tags_valid(d, (grid(l.tiles)[0].len() * grid(l.tiles).len()) as int),
        parsed_grid(d, grid(l.tiles)[0].len(), grid(l.tiles).len()) == grid(l.tiles),
{
    let g = grid(l.tiles);
    let w = g[0].len() as int;
    let h = g.len() as int;
    let x = enc_header(l);
    let t = enc_list(flat(g), tile_enc());
    lemma_flat(g, w);
    lemma_enc_list(flat(g), tile_enc(), 12);
    assert(h * w == w * h) by (nonlinear_arith);
    let a1 = le_bytes(VERSION);
    let a2 = a1 + le_bytes(w as u32);
    let a3 = a2 + le_bytes(h as u32);
    lemma_split(d, a3, t);
    lemma_split(d, a2, le_bytes(h as u32));
    lemma_split(d, a1, le_bytes(w as u32));
    crate::bytes::lemma_u32_at_le(d, 0, VERSION);
    crate::bytes::lemma_u32_at_le(d, 4, w as u32);
    crate::bytes::lemma_u32_at_le(d, 8, h as u32);
    lemma_tiles_back(d, g, w, h);
}

/// The player starts, spotlights and steams, standing at `o` in `d`, are read back.
proof fn lemma_decorations_back(d: Seq<u8>, o: int, l: Level)
    requires
        l.wf(),
        counts_fit(l),
        0 <= o,
        o + enc_decorations(l).len() <= d.len(),
        d.subrange(o, o + enc_decorations(l).len()) == enc_decorations(l),
    ensures
        enc_decorations(l).len() == 24 + 12 * l.spotlights.entries().len() + 16
            * l.steams.entries().len(),
        u32_at(d, o) == l.p1_position.0,
        u32_at(d, o + 4) == l.p1_position.1,
        u32_at(d, o + 8) == l.p2_position.0,
        u32_at(d, o + 12) == l.p2_position.1,
        u32_at(d, o + 16) == l.spotlights.entries().len(),
        spotlight_entries(d, o + 20, l.spotlights.entries().len()) == l.spotlights.entries(),
        u32_at(d, o + 20 + 12 * l.spotlights.entries().len()) == l.steams.entries().len(),
        steam_entries(d, o + 24 + 12 * l.spotlights.entries().len(), l.steams.entries().len())
            == l.steams.entries(),
        spotlights_valid(d, o + 20, l.spotlights.entries().len()),
        steams_valid(d, o + 24 + 12 * l.spotlights.entries().len(), l.steams.entries().len()),
{
    let ss = l.spotlights.entries();
    let st = l.steams.entries();
    lemma_seq_to_map(ss);
    lemma_seq_to_map(st);
    assert forall|i: int| 0 <= i < ss.len() implies (#[trigger] ss[i]).1 <= MAX_SPOTLIGHT_INTENSITY by {
        assert(l.spotlights@.contains_key(ss[i].0));
    }
    assert forall|i: int| 0 <= i < st.len() implies (#[trigger] st[i]).1.range <= MAX_STEAM_RANGE by {
        assert(l.steams@.contains_key(st[i].0));
    }
    let x = enc_decorations(l);
    lemma_enc_list(ss, spotlight_enc(), 12);
    lemma_enc_list(st, steam_enc(), 16);
    let xs = enc_list(ss, spotlight_enc());
    let xt = enc_list(st, steam_enc());
    let a1 = le_bytes(l.p1_position.0);
    let a2 = a1 + le_bytes(l.p1_position.1);
    let a3 = a2 + le_bytes(l.p2_position.0);
    let a4 = a3 + le_bytes(l.p2_position.1);
    let a5 = a4 + le_bytes(ss.len() as u32);
    let a6 = a5 + xs;
    let a7 = a6 + le_bytes(st.len() as u32);
    assert(x.subrange(0, x.len() as int) =~= x);
    lemma_split(x, a7, xt);
    lemma_split(x, a6, le_bytes(st.len() as u32));
    lemma_split(x, a5, xs);
    lemma_split(x, a4, le_bytes(ss.len() as u32));
    lemma_split(x, a3, le_bytes(l.p2_position.1));
    lemma_split(x, a2, le_bytes(l.p2_position.0));
    lemma_split(x, a1, le_bytes(l.p1_position.1));
    lemma_sub_window(d, o, x, 0, a1);
    lemma_sub_window(d, o, x, 4, le_bytes(l.p1_position.1));
    lemma_sub_window(d, o, x, 8, le_bytes(l.p2_position.0));
    lemma_sub_window(d, o, x, 12, le_bytes(l.p2_position.1));
    lemma_sub_window(d, o, x, 16, le_bytes(ss.len() as u32));
    lemma_sub_window(d, o, x, 20, xs);
    lemma_sub_window(d, o, x, 20 + 12 * ss.len() as int, le_bytes(st.len() as u32));
    lemma_sub_window(d, o, x, 24 + 12 * ss.len() as int, xt);
    crate::bytes::lemma_u32_at_le(d, o, l.p1_position.0);
    crate::bytes::lemma_u32_at_le(d, o + 4, l.p1_position.1);
    crate::bytes::lemma_u32_at_le(d, o + 8, l.p2_position.0);
    crate::bytes::lemma_u32_at_le(d, o + 12, l.p2_position.1);
    crate::bytes::lemma_u32_at_le(d, o + 16, ss.len() as u32);
    crate::bytes::lemma_u32_at_le(d, o + 20 + 12 * ss.len(), st.len() as u32);
    lemma_spotlights_back(d, o + 20, ss);
    lemma_steams_back(d, o + 24 + 12 * ss.len(), st);
}

/// The comment field, time limit, enemy table and random crate tables,
/// standing at `o` in `d`, are read back.
proof fn lemma_info_back(d: Seq<u8>, o: int, l: Level)
    requires
        0 <= o,
        o + enc_info(l).len() <= d.len(),
        d.subrange(o, o + enc_info(l).len()) == enc_info(l),
    ensures
        enc_info(l).len() == FIXED_BLOCK,
        d.subrange(o, o + 20) == comment_bytes(l.general_info.comment@),
        u32_at(d, o + 20) == l.general_info.time_limit,
        u32_seq(d, o + 24, 8) == l.general_info.enemy_table@,
        u32_seq(d, o + 56, 21) == random_seq(l.crates.random.normal),
        u32_seq(d, o + 140, 21) == random_seq(l.crates.random.deathmatch),
{
    let x = enc_info(l);
    let c = comment_bytes(l.general_info.comment@);
    let e = enc_list(l.general_info.enemy_table@, u32_enc());
    let rn = enc_list(random_seq(l.crates.random.normal), u32_enc());
    let rd = enc_list(random_seq(l.crates.random.deathmatch), u32_enc());
    lemma_enc_list(l.general_info.enemy_table@, u32_enc(), 4);
    lemma_enc_list(random_seq(l.crates.random.normal), u32_enc(), 4);
    lemma_enc_list(random_seq(l.crates.random.deathmatch), u32_enc(), 4);
    let a1 = c;
    let a2 = a1 + le_bytes(l.general_info.time_limit);
    let a3 = a2 + e;
    let a4 = a3 + rn;
    assert(x.subrange(0, x.len() as int) =~= x);
    lemma_split(x, a4, rd);
    lemma_split(x, a3, rn);
    lemma_split(x, a2, e);
    lemma_split(x, a1, le_bytes(l.general_info.time_limit));
    lemma_sub_window(d, o, x, 0, c);
    lemma_sub_window(d, o, x, 20, le_bytes(l.general_info.time_limit));
    lemma_sub_window(d, o, x, 24, e);
    lemma_sub_window(d, o, x, 56, rn);
    lemma_sub_window(d, o, x, 140, rd);
    crate::bytes::lemma_u32_at_le(d, o + 20, l.general_info.time_limit);
    lemma_u32s_back(d, o + 24, l.general_info.enemy_table@);
    lemma_u32s_back(d, o + 56, random_seq(l.crates.random.normal));
    lemma_u32s_back(d, o + 140, random_seq(l.crates.random.deathmatch));
}

/// The placed crates, standing at `o` in `d`, are read back.
proof fn lemma_static_back(d: Seq<u8>, o: int, l: Level)
    requires
        counts_fit(l),
        0 <= o,
        o + enc_static(l).len() <= d.len(),
        d.subrange(o, o + enc_static(l).len()) == enc_static(l),
    ensures
        ({
            let cs = l.crates.static_crates.entries();
            let cn = crates_of(cs, StaticCrate::Normal);
            let cd = crates_of(cs, StaticCrate::Deathmatch);
            &&& enc_static(l).len() == 8 + 16 * cn.len() + 16 * cd.len()
            &&& u32_at(d, o) == cn.len()
            &&& crate_entries(d, o + 4, cn.len(), StaticCrate::Normal) == cn
            &&& classes_valid(d, o + 4, cn.len())
            &&& u32_at(d, o + 4 + 16 * cn.len()) == cd.len()
            &&& crate_entries(d, o + 8 + 16 * cn.len(), cd.len(), StaticCrate::Deathmatch) == cd
            &&& classes_valid(d, o + 8 + 16 * cn.len(), cd.len())
        }),
{
    let cs = l.crates.static_crates.entries();
    let cn = crates_of(cs, StaticCrate::Normal);
    let cd = crates_of(cs, StaticCrate::Deathmatch);
    lemma_crates_of(cs, StaticCrate::Normal);
    lemma_crates_of(cs, StaticCrate::Deathmatch);
    crate::codec::lemma_crates_of_len(cs, StaticCrate::Normal);
    crate::codec::lemma_crates_of_len(cs, StaticCrate::Deathmatch);
    let x = enc_static(l);
    let xn = enc_list(cn, crate_enc());
    let xd = enc_list(cd, crate_enc());
    lemma_enc_list(cn, crate_enc(), 16);
    lemma_enc_list(cd, crate_enc(), 16);
    let a1 = le_bytes(cn.len() as u32);
    let a2 = a1 + xn;
    let a3 = a2 + le_bytes(cd.len() as u32);
    assert(x.subrange(0, x.len() as int) =~= x);
    lemma_split(x, a3, xd);
    lemma_split(x, a2, le_bytes(cd.len() as u32));
    lemma_split(x, a1, xn);
    lemma_sub_window(d, o, x, 0, a1);
    lemma_sub_window(d, o, x, 4, xn);
    lemma_sub_window(d, o, x, 4 + 16 * cn.len() as int, le_bytes(cd.len() as u32));
    lemma_sub_window(d, o, x, 8 + 16 * cn.len() as int, xd);
    crate::bytes::lemma_u32_at_le(d, o, cn.len() as u32);
    crate::bytes::lemma_u32_at_le(d, o + 4 + 16 * cn.len(), cd.len() as u32);
    lemma_crates_back(d, o + 4, cn, StaticCrate::Normal);
    lemma_crates_back(d, o + 8 + 16 * cn.len(), cd, StaticCrate::Deathmatch);
}

/// What the four sections read back make of the whole file.
#[verifier::rlimit(100)]
#[verifier::spinoff_prover]
proof fn lemma_assemble(d: Seq<u8>, l: Level, o1: int, o2: int, o3: int)
    requires
        l.wf(),
        counts_fit(l),
        ({
            let g = grid(l.tiles);
            let w = g[0].len() as int;
            let h = g.len() as int;
            let ss = l.spotlights.entries();
            let st = l.steams.entries();
            let cs = l.crates.static_crates.entries();
            let cn = crates_of(cs, StaticCrate::Normal);
            let cd = crates_of(cs, StaticCrate::Deathmatch);
            &&& o1 == 12 + 12 * (w * h)
            &&& o2 == o1 + 24 + 12 * ss.len() + 16 * st.len()
            &&& o3 == o2 + FIXED_BLOCK
            &&& d.len() == o3 + 8 + 16 * cn.len() + 16 * cd.len()
            &&& u32_at(d, 0) == VERSION
            &&& u32_at(d, 4) == w
            &&& u32_at(d, 8) == h
            &&& tags_valid(d, w * h)
            &&& parsed_grid(d, w as nat, h as nat) == g
            &&& u32_at(d, o1) == l.p1_position.0
            &&& u32_at(d, o1 + 4) == l.p1_position.1
            &&& u32_at(d, o1 + 8) == l.p2_position.0
            &&& u32_at(d, o1 + 12) == l.p2_position.1
            &&& u32_at(d, o1 + 16) == ss.len()
            &&& spotlight_entries(d, o1 + 20, ss.len()) == ss
            &&& u32_at(d, o1 + 20 + 12 * ss.len()) == st.len()
            &&& steam_entries(d, o1 + 24 + 12 * ss.len(), st.len()) == st
            &&& spotlights_valid(d, o1 + 20, ss.len())
            &&& steams_valid(d, o1 + 24 + 12 * ss.len(), st.len())
            &&& d.subrange(o2, o2 + 20) == comment_bytes(l.general_info.comment@)
            &&& u32_at(d, o2 + 20) == l.general_info.time_limit
            &&& u32_seq(d, o2 + 24, 8) == l.general_info.enemy_table@
            &&& u32_seq(d, o2 + 56, 21) == random_seq(l.crates.random.normal)
            &&& u32_seq(d, o2 + 140, 21) == random_seq(l.crates.random.deathmatch)
            &&& u32_at(d, o3) == cn.len()
            &&& crate_entries(d, o3 + 4, cn.len(), StaticCrate::Normal) == cn
            &&& classes_valid(d, o3 + 4, cn.len())
            &&& u32_at(d, o3 + 4 + 16 * cn.len()) == cd.len()
            &&& crate_entries(d, o3 + 8 + 16 * cn.len(), cd.len(), StaticCrate::Deathmatch) == cd
            &&& classes_valid(d, o3 + 8 + 16 * cn.len(), cd.len())
            &&& seq_to_map(cn + cd) == seq_to_map(cs)
        }),
    ensures
        parse(d) == Ok::<LevelData, DeserializationError>(
            LevelData { comment: comment_of(comment_bytes(l.general_info.comment@)), ..l.data() },
        ),
{
    let g = grid(l.tiles);
    assert(g.len() >= 12 && g[0].len() >= 16);
    assert(d.subrange(o2, o2 + 20) == comment_bytes(l.general_info.comment@));
}

/// Reading back the bytes that a level is written as gives the level again,
/// field for field; the comment comes back as its 20-byte field holds it.
#[verifier::rlimit(100)]
#[verifier::spinoff_prover]
pub proof fn lemma_round_trip(l: Level)
    requires
        l.wf(),
        counts_fit(l),
    ensures
        parse(encode(l)) == Ok::<LevelData, DeserializationError>(
            LevelData { comment: comment_of(comment_bytes(l.general_info.comment@)), ..l.data() },
        ),
{
    let d = encode(l);
    let h1 = enc_header(l);
    let h2 = h1 + enc_decorations(l);
    let h3 = h2 + enc_info(l);
    assert(d.subrange(0, d.len() as int) =~= d);
    lemma_split(d, h3, enc_static(l));
    lemma_split(d, h2, enc_info(l));
    lemma_split(d, h1, enc_decorations(l));
    lemma_header_back(d, l);
    lemma_decorations_back(d, h1.len() as int, l);
    lemma_info_back(d, h2.len() as int, l);
    lemma_static_back(d, h3.len() as int, l);
    lemma_static_crates(
        l.crates.static_crates.entries(),
        crates_of(l.crates.static_crates.entries(), StaticCrate::Normal),
        crates_of(l.crates.static_crates.entries(), StaticCrate::Deathmatch),
    );
    lemma_assemble(d, l, h1.len() as int, h2.len() as int, h3.len() as int);
}

/// The crates of both game modes, one mode after the other, denote the same
/// map as all crates.
proof fn lemma_static_crates(
    cs: Seq<(Position, StaticCrateType)>,
    cn: Seq<(Position, StaticCrateType)>,
    cd: Seq<(Position, StaticCrateType)>,
)
    requires
        unique_keys(cs),
        cn == crates_of(cs, StaticCrate::Normal),
        cd == crates_of(cs, StaticCrate::Deathmatch),
    ensures
        seq_to_map(cn + cd) == seq_to_map(cs),
{
    lemma_crates_of(cs, StaticCrate::Normal);
    lemma_crates_of(cs, StaticCrate::Deathmatch);
    let t = cn + cd;
    assert forall|a: int, b: int| 0 <= a < b < t.len() implies t[a].0 != t[b].0 by {
        if b < cn.len() {
            assert(t[a] == cn[a] && t[b] == cn[b]);
        } else if a >= cn.len() {
            assert(t[a] == cd[a - cn.len()] && t[b] == cd[b - cn.len()]);
        } else {
            assert(t[a] == cn[a] && t[b] == cd[b - cn.len()]);
            assert(cs.contains(cn[a]));
            assert(cs.contains(cd[b - cn.len()]));
            let i = choose|i: int| 0 <= i < cs.len() && cs[i] == cn[a];
            let j = choose|j: int| 0 <= j < cs.len() && cs[j] == cd[b - cn.len()];
            if t[a].0 == t[b].0 {
                assert(i == j);
            }
        }
    }
    assert forall|i: int| 0 <= i < t.len() implies #[trigger] cs.contains(t[i]) by {
        if i < cn.len() {
            assert(t[i] == cn[i]);
        } else {
            assert(t[i] == cd[i - cn.len()]);
        }
    }
    assert forall|j: int| 0 <= j < cs.len() implies #[trigger] t.contains(cs[j]) by {
        if cs[j].1.crate_variant == StaticCrate::Normal {
            assert(cn.contains(cs[j]));
            let i = choose|i: int| 0 <= i < cn.len() && cn[i] == cs[j];
            assert(t[i] == cn[i]);
        } else {
            assert(cd.contains(cs[j]));
            let i = choose|i: int| 0 <= i < cd.len() && cd[i] == cs[j];
            assert(t[cn.len() + i] == cd[i]);
        }
    }
    lemma_same_entries(t, cs);
}

/// A buffer whose version field is not the supported one is refused as
/// such, whatever follows it.
pub proof fn lemma_version_guard(d: Seq<u8>)
    requires
        d.len() >= 4,
        u32_at(d, 0) != VERSION,
    ensures
        parse(d) == Err::<LevelData, DeserializationError>(
            DeserializationError::ContentError(FileTypeError::InvalidVersion),
        ),
{
}

proof fn lemma_comment_of_zeros(a: Seq<u8>, k: nat)
    ensures
        comment_of(a + Seq::new(k, |i: int| 0u8)) == comment_of(a),
    decreases k,
{
    if k > 0 {
        let z = a + Seq::new(k, |i: int| 0u8);
        assert(z.drop_last() =~= a + Seq::new((k - 1) as nat, |i: int| 0u8));
        lemma_comment_of_zeros(a, (k - 1) as nat);
    } else {
        assert(a + Seq::new(k, |i: int| 0u8) =~= a);
    }
}

proof fn lemma_comment_of_ascii(c: Seq<char>)
    requires
        forall|i: int| 0 <= i < c.len() ==> '\u{1}' <= #[trigger] c[i] <= '\u{7f}',
    ensures
        comment_of(Seq::new(c.len(), |i: int| c[i] as u8)) == c,
    decreases c.len(),
{
    let b = Seq::new(c.len(), |i: int| c[i] as u8);
    if c.len() > 0 {
        let p = c.drop_last();
        assert(b.drop_last() =~= Seq::new(p.len(), |i: int| p[i] as u8));
        lemma_comment_of_ascii(p);
        assert(b.last() != 0);
        assert(b.last() as char == c.last());
        assert(comment_of(b) =~= c);
    } else {
        assert(comment_of(b) =~= c);
    }
}

/// An ASCII comment without NUL characters comes back from its 20-byte
/// field as its first 20 characters: whole when it is at most 20 long.
pub proof fn lemma_comment_round_trip(c: Seq<char>)
    requires
        forall|i: int| 0 <= i < c.len() ==> '\u{1}' <= #[trigger] c[i] <= '\u{7f}',
    ensures
        comment_of(comment_bytes(c)) == c.take(if c.len() < 20 { c.len() as int } else { 20 }),
{
    assert(vstd::utf8::is_ascii_chars(c));
    vstd::utf8::is_ascii_chars_encode_utf8(c);
    let e = vstd::utf8::encode_utf8(c);
    let n: int = if c.len() < 20 { c.len() as int } else { 20 };
    let t = c.take(n);
    assert(e.take(n) =~= Seq::new(t.len(), |i: int| t[i] as u8));
    lemma_comment_of_zeros(e.take(n), (20 - n) as nat);
    lemma_comment_of_ascii(t);
}

} // verus!
