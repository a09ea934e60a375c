/* What generated C code relies on. */
#include <math.h>
#include <setjmp.h>
#include <stdarg.h>
#include <stdatomic.h>
#include <stdint.h>
#include <stdlib.h>
#include <string.h>

typedef __int128 int128_t;
typedef unsigned __int128 uint128_t;
typedef uintptr_t __rustc_usize;
typedef intptr_t __rustc_isize;

/* Arithmetic that tells whether it overflowed. */
#define __RUSTC_OVERFLOW(op, suffix, type)                                      \
  static inline _Bool __rustc_##op##_overflow_##suffix(type a, type b, type *r) { \
    return __builtin_##op##_overflow(a, b, r);                                  \
  }
#define __RUSTC_OVERFLOWS(suffix, type) \
  __RUSTC_OVERFLOW(add, suffix, type)   \
  __RUSTC_OVERFLOW(sub, suffix, type)   \
  __RUSTC_OVERFLOW(mul, suffix, type)
__RUSTC_OVERFLOWS(i8, int8_t)
__RUSTC_OVERFLOWS(u8, uint8_t)
__RUSTC_OVERFLOWS(i16, int16_t)
__RUSTC_OVERFLOWS(u16, uint16_t)
__RUSTC_OVERFLOWS(i32, int32_t)
__RUSTC_OVERFLOWS(u32, uint32_t)
__RUSTC_OVERFLOWS(i64, int64_t)
__RUSTC_OVERFLOWS(u64, uint64_t)
__RUSTC_OVERFLOWS(i128, int128_t)
__RUSTC_OVERFLOWS(u128, uint128_t)
__RUSTC_OVERFLOWS(isize, __rustc_isize)
__RUSTC_OVERFLOWS(usize, __rustc_usize)

/* Bits of numbers that are not zero, and the order of bytes. */
#define __rustc_clz32(x) __builtin_clz(x)
#define __rustc_clz64(x) __builtin_clzll(x)
#define __rustc_ctz32(x) __builtin_ctz(x)
#define __rustc_ctz64(x) __builtin_ctzll(x)
#define __rustc_popcount32(x) __builtin_popcount(x)
#define __rustc_popcount64(x) __builtin_popcountll(x)
#define __rustc_bswap16(x) __builtin_bswap16(x)
#define __rustc_bswap32(x) __builtin_bswap32(x)
#define __rustc_bswap64(x) __builtin_bswap64(x)

/* Unwinding: a chain of the places to which it can go. */
#define __rustc_setjmp(buf) setjmp(buf)
#define __rustc_longjmp(buf, value) longjmp(buf, value)
struct __rustc_unwind_context {
  struct __rustc_unwind_context *prev;
  void *exception_ptr;
  jmp_buf buf;
};
__attribute__((weak)) _Thread_local struct __rustc_unwind_context *__rustc_unwind_chain;

__attribute__((weak)) int32_t __rust_try(void (*try_fn)(void *), void *data,
                                         void (*catch_fn)(void *, void *)) {
  struct __rustc_unwind_context ctx;
  ctx.prev = __rustc_unwind_chain;
  ctx.exception_ptr = NULL;
  __rustc_unwind_chain = &ctx;
  if (__rustc_setjmp(ctx.buf) != 0) {
    __rustc_unwind_chain = ctx.prev;
    catch_fn(data, ctx.exception_ptr);
    return 1;
  }
  try_fn(data);
  __rustc_unwind_chain = ctx.prev;
  return 0;
}
