//! What the system call filters answer, call by call.
use vstd::prelude::*;

use crate::error::Error;
use crate::runtime::seccomp;
use crate::runtime::seccomp::Arch;
use crate::runtime::seccomp::SeccompData;
use crate::runtime::seccomp::SockFilter;

verus! {

/// Whether a call ends the process under the default profile: those that load modules and kernels, load BPF
/// programs, change the root, reboot, reach the ports of the machine, or keep its accounts.
pub open spec fn kills(arch: Arch, nr: u32) -> bool {
    match arch {
        Arch::X86_64 => nr == 175 || nr == 313 || nr == 176 || nr == 246 || nr == 320 || nr == 321 || nr == 155 || nr == 169 || nr == 172 || nr == 173 || nr == 163,
        Arch::Aarch64 => nr == 105 || nr == 273 || nr == 106 || nr == 104 || nr == 294 || nr == 280 || nr == 41 || nr == 142 || nr == 89,
    }
}

/// Whether a call is not permitted under the default profile.
pub open spec fn is_refused(arch: Arch, nr: u32) -> bool {
    match arch {
        Arch::X86_64 => nr == 298 || nr == 101 || nr == 310 || nr == 311 || nr == 308 || nr == 442 || nr == 304 || nr == 303 || nr == 167 || nr == 168 || nr == 227 || nr == 164 || nr == 159 || nr == 272 || nr == 250 || nr == 248 || nr == 249 || nr == 438 || nr == 135 || nr == 279 || nr == 300 || nr == 317 || nr == 179,
        Arch::Aarch64 => nr == 241 || nr == 117 || nr == 270 || nr == 271 || nr == 268 || nr == 442 || nr == 265 || nr == 264 || nr == 224 || nr == 225 || nr == 112 || nr == 170 || nr == 171 || nr == 97 || nr == 219 || nr == 217 || nr == 218 || nr == 438 || nr == 92 || nr == 239 || nr == 262 || nr == 277 || nr == 60,
    }
}

/// Whether a call does not seem to exist under the default profile.
pub open spec fn is_hidden(arch: Arch, nr: u32) -> bool {
    match arch {
        Arch::X86_64 => nr == 323 || nr == 447 || nr == 425 || nr == 180,
        Arch::Aarch64 => nr == 282 || nr == 447 || nr == 425 || nr == 42,
    }
}

/// Whether a call is one of the few that the strict profile allows.
pub open spec fn is_basic(arch: Arch, nr: u32) -> bool {
    match arch {
        Arch::X86_64 => nr == 0 || nr == 1 || nr == 257 || nr == 3 || nr == 5 || nr == 262 || nr == 9 || nr == 10 || nr == 11 || nr == 231 || nr == 60 || nr == 12 || nr == 21 || nr == 439 || nr == 267 || nr == 217 || nr == 318 || nr == 228 || nr == 35 || nr == 435 || nr == 28 || nr == 13 || nr == 14 || nr == 15 || nr == 39 || nr == 186 || nr == 110 || nr == 102 || nr == 107 || nr == 104 || nr == 108 || nr == 8 || nr == 32 || nr == 292 || nr == 293 || nr == 270 || nr == 271 || nr == 20 || nr == 19 || nr == 24 || nr == 157 || nr == 158 || nr == 218 || nr == 273 || nr == 334,
        Arch::Aarch64 => nr == 63 || nr == 64 || nr == 56 || nr == 57 || nr == 80 || nr == 79 || nr == 222 || nr == 226 || nr == 215 || nr == 94 || nr == 93 || nr == 214 || nr == 439 || nr == 78 || nr == 61 || nr == 278 || nr == 113 || nr == 101 || nr == 435 || nr == 233 || nr == 134 || nr == 135 || nr == 139 || nr == 172 || nr == 178 || nr == 173 || nr == 174 || nr == 175 || nr == 176 || nr == 177 || nr == 62 || nr == 23 || nr == 24 || nr == 59 || nr == 72 || nr == 73 || nr == 66 || nr == 65 || nr == 124 || nr == 167 || nr == 96 || nr == 99 || nr == 293,
    }
}

/// The number by which the kernel tells an architecture.
pub open spec fn number_of(arch: Arch) -> u32 {
    match arch {
        Arch::X86_64 => 0xc000003e,
        Arch::Aarch64 => 0xc00000b7,
    }
}

proof fn default_answers(arch: Arch, data: SeccompData)
    requires
        data.arch == number_of(arch),
    ensures
        seccomp::answer(
            seccomp::filter_of(seccomp::audit_arch(arch), seccomp::denied_table(arch), seccomp::SECCOMP_RET_ALLOW),
            data,
        ) == Some(
            if kills(arch, data.nr) {
                0x80000000u32
            } else if is_refused(arch, data.nr) {
                0x00050001u32
            } else if is_hidden(arch, data.nr) {
                0x00050026u32
            } else {
                0x7fff0000u32
            },
        ),
{
    let nr = data.nr;
    match arch {
        Arch::X86_64 => {
            if nr == 175 {
                seccomp::default_denies_the_listed(arch, data, 0);
            } else if nr == 313 {
                seccomp::default_denies_the_listed(arch, data, 1);
            } else if nr == 176 {
                seccomp::default_denies_the_listed(arch, data, 2);
            } else if nr == 246 {
                seccomp::default_denies_the_listed(arch, data, 3);
            } else if nr == 320 {
                seccomp::default_denies_the_listed(arch, data, 4);
            } else if nr == 321 {
                seccomp::default_denies_the_listed(arch, data, 5);
            } else if nr == 298 {
                seccomp::default_denies_the_listed(arch, data, 6);
            } else if nr == 101 {
                seccomp::default_denies_the_listed(arch, data, 7);
            } else if nr == 310 {
                seccomp::default_denies_the_listed(arch, data, 8);
            } else if nr == 311 {
                seccomp::default_denies_the_listed(arch, data, 9);
            } else if nr == 323 {
                seccomp::default_denies_the_listed(arch, data, 10);
            } else if nr == 447 {
                seccomp::default_denies_the_listed(arch, data, 11);
            } else if nr == 308 {
                seccomp::default_denies_the_listed(arch, data, 12);
            } else if nr == 442 {
                seccomp::default_denies_the_listed(arch, data, 13);
            } else if nr == 304 {
                seccomp::default_denies_the_listed(arch, data, 14);
            } else if nr == 303 {
                seccomp::default_denies_the_listed(arch, data, 15);
            } else if nr == 167 {
                seccomp::default_denies_the_listed(arch, data, 16);
            } else if nr == 168 {
                seccomp::default_denies_the_listed(arch, data, 17);
            } else if nr == 155 {
                seccomp::default_denies_the_listed(arch, data, 18);
            } else if nr == 169 {
                seccomp::default_denies_the_listed(arch, data, 19);
            } else if nr == 172 {
                seccomp::default_denies_the_listed(arch, data, 20);
            } else if nr == 173 {
                seccomp::default_denies_the_listed(arch, data, 21);
            } else if nr == 425 {
                seccomp::default_denies_the_listed(arch, data, 22);
            } else if nr == 227 {
                seccomp::default_denies_the_listed(arch, data, 23);
            } else if nr == 164 {
                seccomp::default_denies_the_listed(arch, data, 24);
            } else if nr == 159 {
                seccomp::default_denies_the_listed(arch, data, 25);
            } else if nr == 272 {
                seccomp::default_denies_the_listed(arch, data, 26);
            } else if nr == 250 {
                seccomp::default_denies_the_listed(arch, data, 27);
            } else if nr == 248 {
                seccomp::default_denies_the_listed(arch, data, 28);
            } else if nr == 249 {
                seccomp::default_denies_the_listed(arch, data, 29);
            } else if nr == 438 {
                seccomp::default_denies_the_listed(arch, data, 30);
            } else if nr == 135 {
                seccomp::default_denies_the_listed(arch, data, 31);
            } else if nr == 279 {
                seccomp::default_denies_the_listed(arch, data, 32);
            } else if nr == 300 {
                seccomp::default_denies_the_listed(arch, data, 33);
            } else if nr == 317 {
                seccomp::default_denies_the_listed(arch, data, 34);
            } else if nr == 163 {
                seccomp::default_denies_the_listed(arch, data, 35);
            } else if nr == 179 {
                seccomp::default_denies_the_listed(arch, data, 36);
            } else if nr == 180 {
                seccomp::default_denies_the_listed(arch, data, 37);
            } else {
                seccomp::default_allows_the_unlisted(arch, data);
            }
        },
        Arch::Aarch64 => {
            if nr == 105 {
                seccomp::default_denies_the_listed(arch, data, 0);
            } else if nr == 273 {
                seccomp::default_denies_the_listed(arch, data, 1);
            } else if nr == 106 {
                seccomp::default_denies_the_listed(arch, data, 2);
            } else if nr == 104 {
                seccomp::default_denies_the_listed(arch, data, 3);
            } else if nr == 294 {
                seccomp::default_denies_the_listed(arch, data, 4);
            } else if nr == 280 {
                seccomp::default_denies_the_listed(arch, data, 5);
            } else if nr == 241 {
                seccomp::default_denies_the_listed(arch, data, 6);
            } else if nr == 117 {
                seccomp::default_denies_the_listed(arch, data, 7);
            } else if nr == 270 {
                seccomp::default_denies_the_listed(arch, data, 8);
            } else if nr == 271 {
                seccomp::default_denies_the_listed(arch, data, 9);
            } else if nr == 282 {
                seccomp::default_denies_the_listed(arch, data, 10);
            } else if nr == 447 {
                seccomp::default_denies_the_listed(arch, data, 11);
            } else if nr == 268 {
                seccomp::default_denies_the_listed(arch, data, 12);
            } else if nr == 442 {
                seccomp::default_denies_the_listed(arch, data, 13);
            } else if nr == 265 {
                seccomp::default_denies_the_listed(arch, data, 14);
            } else if nr == 264 {
                seccomp::default_denies_the_listed(arch, data, 15);
            } else if nr == 224 {
                seccomp::default_denies_the_listed(arch, data, 16);
            } else if nr == 225 {
                seccomp::default_denies_the_listed(arch, data, 17);
            } else if nr == 41 {
                seccomp::default_denies_the_listed(arch, data, 18);
            } else if nr == 142 {
                seccomp::default_denies_the_listed(arch, data, 19);
            } else if nr == 425 {
                seccomp::default_denies_the_listed(arch, data, 20);
            } else if nr == 112 {
                seccomp::default_denies_the_listed(arch, data, 21);
            } else if nr == 170 {
                seccomp::default_denies_the_listed(arch, data, 22);
            } else if nr == 171 {
                seccomp::default_denies_the_listed(arch, data, 23);
            } else if nr == 97 {
                seccomp::default_denies_the_listed(arch, data, 24);
            } else if nr == 219 {
                seccomp::default_denies_the_listed(arch, data, 25);
            } else if nr == 217 {
                seccomp::default_denies_the_listed(arch, data, 26);
            } else if nr == 218 {
                seccomp::default_denies_the_listed(arch, data, 27);
            } else if nr == 438 {
                seccomp::default_denies_the_listed(arch, data, 28);
            } else if nr == 92 {
                seccomp::default_denies_the_listed(arch, data, 29);
            } else if nr == 239 {
                seccomp::default_denies_the_listed(arch, data, 30);
            } else if nr == 262 {
                seccomp::default_denies_the_listed(arch, data, 31);
            } else if nr == 277 {
                seccomp::default_denies_the_listed(arch, data, 32);
            } else if nr == 89 {
                seccomp::default_denies_the_listed(arch, data, 33);
            } else if nr == 60 {
                seccomp::default_denies_the_listed(arch, data, 34);
            } else if nr == 42 {
                seccomp::default_denies_the_listed(arch, data, 35);
            } else {
                seccomp::default_allows_the_unlisted(arch, data);
            }
        },
    }
}

proof fn strict_lists(arch: Arch, nr: u32)
    ensures
        seccomp::allowed_calls(arch).contains(nr) <==> is_basic(arch, nr),
{
    let calls = seccomp::allowed_calls(arch);
    match arch {
        Arch::X86_64 => {
            assert(calls.len() == 45);
            assert(calls[0] == 0);
            assert(calls[1] == 1);
            assert(calls[2] == 257);
            assert(calls[3] == 3);
            assert(calls[4] == 5);
            assert(calls[5] == 262);
            assert(calls[6] == 9);
            assert(calls[7] == 10);
            assert(calls[8] == 11);
            assert(calls[9] == 231);
            assert(calls[10] == 60);
            assert(calls[11] == 12);
            assert(calls[12] == 21);
            assert(calls[13] == 439);
            assert(calls[14] == 267);
            assert(calls[15] == 217);
            assert(calls[16] == 318);
            assert(calls[17] == 228);
            assert(calls[18] == 35);
            assert(calls[19] == 435);
            assert(calls[20] == 28);
            assert(calls[21] == 13);
            assert(calls[22] == 14);
            assert(calls[23] == 15);
            assert(calls[24] == 39);
            assert(calls[25] == 186);
            assert(calls[26] == 110);
            assert(calls[27] == 102);
            assert(calls[28] == 107);
            assert(calls[29] == 104);
            assert(calls[30] == 108);
            assert(calls[31] == 8);
            assert(calls[32] == 32);
            assert(calls[33] == 292);
            assert(calls[34] == 293);
            assert(calls[35] == 270);
            assert(calls[36] == 271);
            assert(calls[37] == 20);
            assert(calls[38] == 19);
            assert(calls[39] == 24);
            assert(calls[40] == 157);
            assert(calls[41] == 158);
            assert(calls[42] == 218);
            assert(calls[43] == 273);
            assert(calls[44] == 334);
        },
        Arch::Aarch64 => {
            assert(calls.len() == 43);
            assert(calls[0] == 63);
            assert(calls[1] == 64);
            assert(calls[2] == 56);
            assert(calls[3] == 57);
            assert(calls[4] == 80);
            assert(calls[5] == 79);
            assert(calls[6] == 222);
            assert(calls[7] == 226);
            assert(calls[8] == 215);
            assert(calls[9] == 94);
            assert(calls[10] == 93);
            assert(calls[11] == 214);
            assert(calls[12] == 439);
            assert(calls[13] == 78);
            assert(calls[14] == 61);
            assert(calls[15] == 278);
            assert(calls[16] == 113);
            assert(calls[17] == 101);
            assert(calls[18] == 435);
            assert(calls[19] == 233);
            assert(calls[20] == 134);
            assert(calls[21] == 135);
            assert(calls[22] == 139);
            assert(calls[23] == 172);
            assert(calls[24] == 178);
            assert(calls[25] == 173);
            assert(calls[26] == 174);
            assert(calls[27] == 175);
            assert(calls[28] == 176);
            assert(calls[29] == 177);
            assert(calls[30] == 62);
            assert(calls[31] == 23);
            assert(calls[32] == 24);
            assert(calls[33] == 59);
            assert(calls[34] == 72);
            assert(calls[35] == 73);
            assert(calls[36] == 66);
            assert(calls[37] == 65);
            assert(calls[38] == 124);
            assert(calls[39] == 167);
            assert(calls[40] == 96);
            assert(calls[41] == 99);
            assert(calls[42] == 293);
        },
    }
    if calls.contains(nr) {
        let i = choose|i: int| 0 <= i < calls.len() && calls[i] == nr;
        assert(is_basic(arch, nr));
    }
}

/// Whatever filter `apply_seccomp` answers with: it kills what runs as another architecture. Under
/// the default profile it answers each call with its own refusal and lets all others through; under
/// the strict one it lets the few listed calls through and kills on any other. There is no other
/// profile.
pub proof fn what_the_filters_answer(arch: Arch, profile: &str, made: Result<Vec<SockFilter>, Error>, data: SeccompData)
    requires
        call_ensures(seccomp::apply_seccomp, (arch, profile), made),
    ensures
        made is Ok <==> profile@ == "aivisor-default"@ || profile@ == "aivisor-strict"@,
        made matches Ok(filter) ==> seccomp::answer(filter@, data) == Some(
            if data.arch != number_of(arch) {
                0x80000000u32
            } else if profile@ == "aivisor-strict"@ {
                if is_basic(arch, data.nr) {
                    0x7fff0000u32
                } else {
                    0x80000000u32
                }
            } else if kills(arch, data.nr) {
                0x80000000u32
            } else if is_refused(arch, data.nr) {
                0x00050001u32
            } else if is_hidden(arch, data.nr) {
                0x00050026u32
            } else {
                0x7fff0000u32
            },
        ),
{
    reveal_strlit("aivisor-default");
    reveal_strlit("aivisor-strict");
    assert("aivisor-default"@.len() == 15 && "aivisor-strict"@.len() == 14);
    if data.arch == number_of(arch) {
        default_answers(arch, data);
    }
    strict_lists(arch, data.nr);
    seccomp::strict_allows_only_the_listed(arch, data);
    seccomp::filter_answers(
        seccomp::audit_arch(arch),
        seccomp::denied_table(arch),
        seccomp::SECCOMP_RET_ALLOW,
        data,
    );
}

} // verus!
