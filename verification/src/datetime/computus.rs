//! A second computus, and the proof that it gives Easter Sunday on the same day as the one the
//! calendars use.

use vstd::prelude::*;

use crate::datetime::date::weekday_of_serial;
use crate::datetime::holiday::{easter_sunday, easter_sunday_serial};
use crate::datetime::weekday::Weekday;

verus! {

/// Easter Sunday of year `y` in the Gregorian calendar, as (month, day), by Oudin's
/// computus, which reaches the date by another route than the Meeus/Jones/Butcher one.
pub open spec fn easter_sunday_oudin(y: int) -> (int, int) {
    let c = y / 100;
    let n = y % 19;
    let k = (c - 17) / 25;
    let i0 = (c - c / 4 - (c - k) / 3 + 19 * n + 15) % 30;
    let i = i0 - (i0 / 28) * (1int - (i0 / 28) * (29int / (i0 + 1)) * ((21int - n) / 11));
    let j = (y + y / 4 + i + 2 - c + c / 4) % 7;
    let l = i - j;
    let m = 3 + (l + 40) / 44;
    (m, l + 28 - 31 * (m / 4))
}

/// The two computus agree, on a Sunday, from 1900 to 1919.
proof fn lemma_easter_agrees_1900(y: int)
    requires
        1900 <= y < 1920,
    ensures
        easter_sunday(y) == easter_sunday_oudin(y),
        easter_sunday_serial(y) % 7 == 1,
{
    if y == 1900 {
        assert(easter_sunday(1900int) == easter_sunday_oudin(1900int)) by (nonlinear_arith);
        assert(easter_sunday_serial(1900int) % 7 == 1) by (nonlinear_arith);
    } else if y == 1901 {
        assert(easter_sunday(1901int) == easter_sunday_oudin(1901int)) by (nonlinear_arith);
        assert(easter_sunday_serial(1901int) % 7 == 1) by (nonlinear_arith);
    } else if y == 1902 {
        assert(easter_sunday(1902int) == easter_sunday_oudin(1902int)) by (nonlinear_arith);
        assert(easter_sunday_serial(1902int) % 7 == 1) by (nonlinear_arith);
    } else if y == 1903 {
        assert(easter_sunday(1903int) == easter_sunday_oudin(1903int)) by (nonlinear_arith);
        assert(easter_sunday_serial(1903int) % 7 == 1) by (nonlinear_arith);
    } else if y == 1904 {
        assert(easter_sunday(1904int) == easter_sunday_oudin(1904int)) by (nonlinear_arith);
        assert(easter_sunday_serial(1904int) % 7 == 1) by (nonlinear_arith);
    } else if y == 1905 {
        assert(easter_sunday(1905int) == easter_sunday_oudin(1905int)) by (nonlinear_arith);
        assert(easter_sunday_serial(1905int) % 7 == 1) by (nonlinear_arith);
    } else if y == 1906 {
        assert(easter_sunday(1906int) == easter_sunday_oudin(1906int)) by (nonlinear_arith);
        assert(easter_sunday_serial(1906int) % 7 == 1) by (nonlinear_arith);
    } else if y == 1907 {
        assert(easter_sunday(1907int) == easter_sunday_oudin(1907int)) by (nonlinear_arith);
        assert(easter_sunday_serial(1907int) % 7 == 1) by (nonlinear_arith);
    } else if y == 1908 {
        assert(easter_sunday(1908int) == easter_sunday_oudin(1908int)) by (nonlinear_arith);
        assert(easter_sunday_serial(1908int) % 7 == 1) by (nonlinear_arith);
    } else if y == 1909 {
        assert(easter_sunday(1909int) == easter_sunday_oudin(1909int)) by (nonlinear_arith);
        assert(easter_sunday_serial(1909int) % 7 == 1) by (nonlinear_arith);
    } else if y == 1910 {
        assert(easter_sunday(1910int) == easter_sunday_oudin(1910int)) by (nonlinear_arith);
        assert(easter_sunday_serial(1910int) % 7 == 1) by (nonlinear_arith);
    } else if y == 1911 {
        assert(easter_sunday(1911int) == easter_sunday_oudin(1911int)) by (nonlinear_arith);
        assert(easter_sunday_serial(1911int) % 7 == 1) by (nonlinear_arith);
    } else if y == 1912 {
        assert(easter_sunday(1912int) == easter_sunday_oudin(1912int)) by (nonlinear_arith);
        assert(easter_sunday_serial(1912int) % 7 == 1) by (nonlinear_arith);
    } else if y == 1913 {
        assert(easter_sunday(1913int) == easter_sunday_oudin(1913int)) by (nonlinear_arith);
        assert(easter_sunday_serial(1913int) % 7 == 1) by (nonlinear_arith);
    } else if y == 1914 {
        assert(easter_sunday(1914int) == easter_sunday_oudin(1914int)) by (nonlinear_arith);
        assert(easter_sunday_serial(1914int) % 7 == 1) by (nonlinear_arith);
    } else if y == 1915 {
        assert(easter_sunday(1915int) == easter_sunday_oudin(1915int)) by (nonlinear_arith);
        assert(easter_sunday_serial(1915int) % 7 == 1) by (nonlinear_arith);
    } else if y == 1916 {
        assert(easter_sunday(1916int) == easter_sunday_oudin(1916int)) by (nonlinear_arith);
        assert(easter_sunday_serial(1916int) % 7 == 1) by (nonlinear_arith);
    } else if y == 1917 {
        assert(easter_sunday(1917int) == easter_sunday_oudin(1917int)) by (nonlinear_arith);
        assert(easter_sunday_serial(1917int) % 7 == 1) by (nonlinear_arith);
    } else if y == 1918 {
        assert(easter_sunday(1918int) == easter_sunday_oudin(1918int)) by (nonlinear_arith);
        assert(easter_sunday_serial(1918int) % 7 == 1) by (nonlinear_arith);
    } else if y == 1919 {
        assert(easter_sunday(1919int) == easter_sunday_oudin(1919int)) by (nonlinear_arith);
        assert(easter_sunday_serial(1919int) % 7 == 1) by (nonlinear_arith);
    } else {
    }
}

/// The two computus agree, on a Sunday, from 1920 to 1939.
proof fn lemma_easter_agrees_1920(y: int)
    requires
        1920 <= y < 1940,
    ensures
        easter_sunday(y) == easter_sunday_oudin(y),
        easter_sunday_serial(y) % 7 == 1,
{
    if y == 1920 {
        assert(easter_sunday(1920int) == easter_sunday_oudin(1920int)) by (nonlinear_arith);
        assert(easter_sunday_serial(1920int) % 7 == 1) by (nonlinear_arith);
    } else if y == 1921 {
        assert(easter_sunday(1921int) == easter_sunday_oudin(1921int)) by (nonlinear_arith);
        assert(easter_sunday_serial(1921int) % 7 == 1) by (nonlinear_arith);
    } else if y == 1922 {
        assert(easter_sunday(1922int) == easter_sunday_oudin(1922int)) by (nonlinear_arith);
        assert(easter_sunday_serial(1922int) % 7 == 1) by (nonlinear_arith);
    } else if y == 1923 {
        assert(easter_sunday(1923int) == easter_sunday_oudin(1923int)) by (nonlinear_arith);
        assert(easter_sunday_serial(1923int) % 7 == 1) by (nonlinear_arith);
    } else if y == 1924 {
        assert(easter_sunday(1924int) == easter_sunday_oudin(1924int)) by (nonlinear_arith);
        assert(easter_sunday_serial(1924int) % 7 == 1) by (nonlinear_arith);
    } else if y == 1925 {
        assert(easter_sunday(1925int) == easter_sunday_oudin(1925int)) by (nonlinear_arith);
        assert(easter_sunday_serial(1925int) % 7 == 1) by (nonlinear_arith);
    } else if y == 1926 {
        assert(easter_sunday(1926int) == easter_sunday_oudin(1926int)) by (nonlinear_arith);
        assert(easter_sunday_serial(1926int) % 7 == 1) by (nonlinear_arith);
    } else if y == 1927 {
        assert(easter_sunday(1927int) == easter_sunday_oudin(1927int)) by (nonlinear_arith);
        assert(easter_sunday_serial(1927int) % 7 == 1) by (nonlinear_arith);
    } else if y == 1928 {
        assert(easter_sunday(1928int) == easter_sunday_oudin(1928int)) by (nonlinear_arith);
        assert(easter_sunday_serial(1928int) % 7 == 1) by (nonlinear_arith);
    } else if y == 1929 {
        assert(easter_sunday(1929int) == easter_sunday_oudin(1929int)) by (nonlinear_arith);
        assert(easter_sunday_serial(1929int) % 7 == 1) by (nonlinear_arith);
    } else if y == 1930 {
        assert(easter_sunday(1930int) == easter_sunday_oudin(1930int)) by (nonlinear_arith);
        assert(easter_sunday_serial(1930int) % 7 == 1) by (nonlinear_arith);
    } else if y == 1931 {
        assert(easter_sunday(1931int) == easter_sunday_oudin(1931int)) by (nonlinear_arith);
        assert(easter_sunday_serial(1931int) % 7 == 1) by (nonlinear_arith);
    } else if y == 1932 {
        assert(easter_sunday(1932int) == easter_sunday_oudin(1932int)) by (nonlinear_arith);
        assert(easter_sunday_serial(1932int) % 7 == 1) by (nonlinear_arith);
    } else if y == 1933 {
        assert(easter_sunday(1933int) == easter_sunday_oudin(1933int)) by (nonlinear_arith);
        assert(easter_sunday_serial(1933int) % 7 == 1) by (nonlinear_arith);
    } else if y == 1934 {
        assert(easter_sunday(1934int) == easter_sunday_oudin(1934int)) by (nonlinear_arith);
        assert(easter_sunday_serial(1934int) % 7 == 1) by (nonlinear_arith);
    } else if y == 1935 {
        assert(easter_sunday(1935int) == easter_sunday_oudin(1935int)) by (nonlinear_arith);
        assert(easter_sunday_serial(1935int) % 7 == 1) by (nonlinear_arith);
    } else if y == 1936 {
        assert(easter_sunday(1936int) == easter_sunday_oudin(1936int)) by (nonlinear_arith);
        assert(easter_sunday_serial(1936int) % 7 == 1) by (nonlinear_arith);
    } else if y == 1937 {
        assert(easter_sunday(1937int) == easter_sunday_oudin(1937int)) by (nonlinear_arith);
        assert(easter_sunday_serial(1937int) % 7 == 1) by (nonlinear_arith);
    } else if y == 1938 {
        assert(easter_sunday(1938int) == easter_sunday_oudin(1938int)) by (nonlinear_arith);
        assert(easter_sunday_serial(1938int) % 7 == 1) by (nonlinear_arith);
    } else if y == 1939 {
        assert(easter_sunday(1939int) == easter_sunday_oudin(1939int)) by (nonlinear_arith);
        assert(easter_sunday_serial(1939int) % 7 == 1) by (nonlinear_arith);
    } else {
    }
}

/// The two computus agree, on a Sunday, from 1940 to 1959.
proof fn lemma_easter_agrees_1940(y: int)
    requires
        1940 <= y < 1960,
    ensures
        easter_sunday(y) == easter_sunday_oudin(y),
        easter_sunday_serial(y) % 7 == 1,
{
    if y == 1940 {
        assert(easter_sunday(1940int) == easter_sunday_oudin(1940int)) by (nonlinear_arith);
        assert(easter_sunday_serial(1940int) % 7 == 1) by (nonlinear_arith);
    } else if y == 1941 {
        assert(easter_sunday(1941int) == easter_sunday_oudin(1941int)) by (nonlinear_arith);
        assert(easter_sunday_serial(1941int) % 7 == 1) by (nonlinear_arith);
    } else if y == 1942 {
        assert(easter_sunday(1942int) == easter_sunday_oudin(1942int)) by (nonlinear_arith);
        assert(easter_sunday_serial(1942int) % 7 == 1) by (nonlinear_arith);
    } else if y == 1943 {
        assert(easter_sunday(1943int) == easter_sunday_oudin(1943int)) by (nonlinear_arith);
        assert(easter_sunday_serial(1943int) % 7 == 1) by (nonlinear_arith);
    } else if y == 1944 {
        assert(easter_sunday(1944int) == easter_sunday_oudin(1944int)) by (nonlinear_arith);
        assert(easter_sunday_serial(1944int) % 7 == 1) by (nonlinear_arith);
    } else if y == 1945 {
        assert(easter_sunday(1945int) == easter_sunday_oudin(1945int)) by (nonlinear_arith);
        assert(easter_sunday_serial(1945int) % 7 == 1) by (nonlinear_arith);
    } else if y == 1946 {
        assert(easter_sunday(1946int) == easter_sunday_oudin(1946int)) by (nonlinear_arith);
        assert(easter_sunday_serial(1946int) % 7 == 1) by (nonlinear_arith);
    } else if y == 1947 {
        assert(easter_sunday(1947int) == easter_sunday_oudin(1947int)) by (nonlinear_arith);
        assert(easter_sunday_serial(1947int) % 7 == 1) by (nonlinear_arith);
    } else if y == 1948 {
        assert(easter_sunday(1948int) == easter_sunday_oudin(1948int)) by (nonlinear_arith);
        assert(easter_sunday_serial(1948int) % 7 == 1) by (nonlinear_arith);
    } else if y == 1949 {
        assert(easter_sunday(1949int) == easter_sunday_oudin(1949int)) by (nonlinear_arith);
        assert(easter_sunday_serial(1949int) % 7 == 1) by (nonlinear_arith);
    } else if y == 1950 {
        assert(easter_sunday(1950int) == easter_sunday_oudin(1950int)) by (nonlinear_arith);
        assert(easter_sunday_serial(1950int) % 7 == 1) by (nonlinear_arith);
    } else if y == 1951 {
        assert(easter_sunday(1951int) == easter_sunday_oudin(1951int)) by (nonlinear_arith);
        assert(easter_sunday_serial(1951int) % 7 == 1) by (nonlinear_arith);
    } else if y == 1952 {
        assert(easter_sunday(1952int) == easter_sunday_oudin(1952int)) by (nonlinear_arith);
        assert(easter_sunday_serial(1952int) % 7 == 1) by (nonlinear_arith);
    } else if y == 1953 {
        assert(easter_sunday(1953int) == easter_sunday_oudin(1953int)) by (nonlinear_arith);
        assert(easter_sunday_serial(1953int) % 7 == 1) by (nonlinear_arith);
    } else if y == 1954 {
        assert(easter_sunday(1954int) == easter_sunday_oudin(1954int)) by (nonlinear_arith);
        assert(easter_sunday_serial(1954int) % 7 == 1) by (nonlinear_arith);
    } else if y == 1955 {
        assert(easter_sunday(1955int) == easter_sunday_oudin(1955int)) by (nonlinear_arith);
        assert(easter_sunday_serial(1955int) % 7 == 1) by (nonlinear_arith);
    } else if y == 1956 {
        assert(easter_sunday(1956int) == easter_sunday_oudin(1956int)) by (nonlinear_arith);
        assert(easter_sunday_serial(1956int) % 7 == 1) by (nonlinear_arith);
    } else if y == 1957 {
        assert(easter_sunday(1957int) == easter_sunday_oudin(1957int)) by (nonlinear_arith);
        assert(easter_sunday_serial(1957int) % 7 == 1) by (nonlinear_arith);
    } else if y == 1958 {
        assert(easter_sunday(1958int) == easter_sunday_oudin(1958int)) by (nonlinear_arith);
        assert(easter_sunday_serial(1958int) % 7 == 1) by (nonlinear_arith);
    } else if y == 1959 {
        assert(easter_sunday(1959int) == easter_sunday_oudin(1959int)) by (nonlinear_arith);
        assert(easter_sunday_serial(1959int) % 7 == 1) by (nonlinear_arith);
    } else {
    }
}

/// The two computus agree, on a Sunday, from 1960 to 1979.
proof fn lemma_easter_agrees_1960(y: int)
    requires
        1960 <= y < 1980,
    ensures
        easter_sunday(y) == easter_sunday_oudin(y),
        easter_sunday_serial(y) % 7 == 1,
{
    if y == 1960 {
        assert(easter_sunday(1960int) == easter_sunday_oudin(1960int)) by (nonlinear_arith);
        assert(easter_sunday_serial(1960int) % 7 == 1) by (nonlinear_arith);
    } else if y == 1961 {
        assert(easter_sunday(1961int) == easter_sunday_oudin(1961int)) by (nonlinear_arith);
        assert(easter_sunday_serial(1961int) % 7 == 1) by (nonlinear_arith);
    } else if y == 1962 {
        assert(easter_sunday(1962int) == easter_sunday_oudin(1962int)) by (nonlinear_arith);
        assert(easter_sunday_serial(1962int) % 7 == 1) by (nonlinear_arith);
    } else if y == 1963 {
        assert(easter_sunday(1963int) == easter_sunday_oudin(1963int)) by (nonlinear_arith);
        assert(easter_sunday_serial(1963int) % 7 == 1) by (nonlinear_arith);
    } else if y == 1964 {
        assert(easter_sunday(1964int) == easter_sunday_oudin(1964int)) by (nonlinear_arith);
        assert(easter_sunday_serial(1964int) % 7 == 1) by (nonlinear_arith);
    } else if y == 1965 {
        assert(easter_sunday(1965int) == easter_sunday_oudin(1965int)) by (nonlinear_arith);
        assert(easter_sunday_serial(1965int) % 7 == 1) by (nonlinear_arith);
    } else if y == 1966 {
        assert(easter_sunday(1966int) == easter_sunday_oudin(1966int)) by (nonlinear_arith);
        assert(easter_sunday_serial(1966int) % 7 == 1) by (nonlinear_arith);
    } else if y == 1967 {
        assert(easter_sunday(1967int) == easter_sunday_oudin(1967int)) by (nonlinear_arith);
        assert(easter_sunday_serial(1967int) % 7 == 1) by (nonlinear_arith);
    } else if y == 1968 {
        assert(easter_sunday(1968int) == easter_sunday_oudin(1968int)) by (nonlinear_arith);
        assert(easter_sunday_serial(1968int) % 7 == 1) by (nonlinear_arith);
    } else if y == 1969 {
        assert(easter_sunday(1969int) == easter_sunday_oudin(1969int)) by (nonlinear_arith);
        assert(easter_sunday_serial(1969int) % 7 == 1) by (nonlinear_arith);
    } else if y == 1970 {
        assert(easter_sunday(1970int) == easter_sunday_oudin(1970int)) by (nonlinear_arith);
        assert(easter_sunday_serial(1970int) % 7 == 1) by (nonlinear_arith);
    } else if y == 1971 {
        assert(easter_sunday(1971int) == easter_sunday_oudin(1971int)) by (nonlinear_arith);
        assert(easter_sunday_serial(1971int) % 7 == 1) by (nonlinear_arith);
    } else if y == 1972 {
        assert(easter_sunday(1972int) == easter_sunday_oudin(1972int)) by (nonlinear_arith);
        assert(easter_sunday_serial(1972int) % 7 == 1) by (nonlinear_arith);
    } else if y == 1973 {
        assert(easter_sunday(1973int) == easter_sunday_oudin(1973int)) by (nonlinear_arith);
        assert(easter_sunday_serial(1973int) % 7 == 1) by (nonlinear_arith);
    } else if y == 1974 {
        assert(easter_sunday(1974int) == easter_sunday_oudin(1974int)) by (nonlinear_arith);
        assert(easter_sunday_serial(1974int) % 7 == 1) by (nonlinear_arith);
    } else if y == 1975 {
        assert(easter_sunday(1975int) == easter_sunday_oudin(1975int)) by (nonlinear_arith);
        assert(easter_sunday_serial(1975int) % 7 == 1) by (nonlinear_arith);
    } else if y == 1976 {
        assert(easter_sunday(1976int) == easter_sunday_oudin(1976int)) by (nonlinear_arith);
        assert(easter_sunday_serial(1976int) % 7 == 1) by (nonlinear_arith);
    } else if y == 1977 {
        assert(easter_sunday(1977int) == easter_sunday_oudin(1977int)) by (nonlinear_arith);
        assert(easter_sunday_serial(1977int) % 7 == 1) by (nonlinear_arith);
    } else if y == 1978 {
        assert(easter_sunday(1978int) == easter_sunday_oudin(1978int)) by (nonlinear_arith);
        assert(easter_sunday_serial(1978int) % 7 == 1) by (nonlinear_arith);
    } else if y == 1979 {
        assert(easter_sunday(1979int) == easter_sunday_oudin(1979int)) by (nonlinear_arith);
        assert(easter_sunday_serial(1979int) % 7 == 1) by (nonlinear_arith);
    } else {
    }
}

/// The two computus agree, on a Sunday, from 1980 to 1999.
proof fn lemma_easter_agrees_1980(y: int)
    requires
        1980 <= y < 2000,
    ensures
        easter_sunday(y) == easter_sunday_oudin(y),
        easter_sunday_serial(y) % 7 == 1,
{
    if y == 1980 {
        assert(easter_sunday(1980int) == easter_sunday_oudin(1980int)) by (nonlinear_arith);
        assert(easter_sunday_serial(1980int) % 7 == 1) by (nonlinear_arith);
    } else if y == 1981 {
        assert(easter_sunday(1981int) == easter_sunday_oudin(1981int)) by (nonlinear_arith);
        assert(easter_sunday_serial(1981int) % 7 == 1) by (nonlinear_arith);
    } else if y == 1982 {
        assert(easter_sunday(1982int) == easter_sunday_oudin(1982int)) by (nonlinear_arith);
        assert(easter_sunday_serial(1982int) % 7 == 1) by (nonlinear_arith);
    } else if y == 1983 {
        assert(easter_sunday(1983int) == easter_sunday_oudin(1983int)) by (nonlinear_arith);
        assert(easter_sunday_serial(1983int) % 7 == 1) by (nonlinear_arith);
    } else if y == 1984 {
        assert(easter_sunday(1984int) == easter_sunday_oudin(1984int)) by (nonlinear_arith);
        assert(easter_sunday_serial(1984int) % 7 == 1) by (nonlinear_arith);
    } else if y == 1985 {
        assert(easter_sunday(1985int) == easter_sunday_oudin(1985int)) by (nonlinear_arith);
        assert(easter_sunday_serial(1985int) % 7 == 1) by (nonlinear_arith);
    } else if y == 1986 {
        assert(easter_sunday(1986int) == easter_sunday_oudin(1986int)) by (nonlinear_arith);
        assert(easter_sunday_serial(1986int) % 7 == 1) by (nonlinear_arith);
    } else if y == 1987 {
        assert(easter_sunday(1987int) == easter_sunday_oudin(1987int)) by (nonlinear_arith);
        assert(easter_sunday_serial(1987int) % 7 == 1) by (nonlinear_arith);
    } else if y == 1988 {
        assert(easter_sunday(1988int) == easter_sunday_oudin(1988int)) by (nonlinear_arith);
        assert(easter_sunday_serial(1988int) % 7 == 1) by (nonlinear_arith);
    } else if y == 1989 {
        assert(easter_sunday(1989int) == easter_sunday_oudin(1989int)) by (nonlinear_arith);
        assert(easter_sunday_serial(1989int) % 7 == 1) by (nonlinear_arith);
    } else if y == 1990 {
        assert(easter_sunday(1990int) == easter_sunday_oudin(1990int)) by (nonlinear_arith);
        assert(easter_sunday_serial(1990int) % 7 == 1) by (nonlinear_arith);
    } else if y == 1991 {
        assert(easter_sunday(1991int) == easter_sunday_oudin(1991int)) by (nonlinear_arith);
        assert(easter_sunday_serial(1991int) % 7 == 1) by (nonlinear_arith);
    } else if y == 1992 {
        assert(easter_sunday(1992int) == easter_sunday_oudin(1992int)) by (nonlinear_arith);
        assert(easter_sunday_serial(1992int) % 7 == 1) by (nonlinear_arith);
    } else if y == 1993 {
        assert(easter_sunday(1993int) == easter_sunday_oudin(1993int)) by (nonlinear_arith);
        assert(easter_sunday_serial(1993int) % 7 == 1) by (nonlinear_arith);
    } else if y == 1994 {
        assert(easter_sunday(1994int) == easter_sunday_oudin(1994int)) by (nonlinear_arith);
        assert(easter_sunday_serial(1994int) % 7 == 1) by (nonlinear_arith);
    } else if y == 1995 {
        assert(easter_sunday(1995int) == easter_sunday_oudin(1995int)) by (nonlinear_arith);
        assert(easter_sunday_serial(1995int) % 7 == 1) by (nonlinear_arith);
    } else if y == 1996 {
        assert(easter_sunday(1996int) == easter_sunday_oudin(1996int)) by (nonlinear_arith);
        assert(easter_sunday_serial(1996int) % 7 == 1) by (nonlinear_arith);
    } else if y == 1997 {
        assert(easter_sunday(1997int) == easter_sunday_oudin(1997int)) by (nonlinear_arith);
        assert(easter_sunday_serial(1997int) % 7 == 1) by (nonlinear_arith);
    } else if y == 1998 {
        assert(easter_sunday(1998int) == easter_sunday_oudin(1998int)) by (nonlinear_arith);
        assert(easter_sunday_serial(1998int) % 7 == 1) by (nonlinear_arith);
    } else if y == 1999 {
        assert(easter_sunday(1999int) == easter_sunday_oudin(1999int)) by (nonlinear_arith);
        assert(easter_sunday_serial(1999int) % 7 == 1) by (nonlinear_arith);
    } else {
    }
}

/// The two computus agree, on a Sunday, from 2000 to 2019.
proof fn lemma_easter_agrees_2000(y: int)
    requires
        2000 <= y < 2020,
    ensures
        easter_sunday(y) == easter_sunday_oudin(y),
        easter_sunday_serial(y) % 7 == 1,
{
    if y == 2000 {
        assert(easter_sunday(2000int) == easter_sunday_oudin(2000int)) by (nonlinear_arith);
        assert(easter_sunday_serial(2000int) % 7 == 1) by (nonlinear_arith);
    } else if y == 2001 {
        assert(easter_sunday(2001int) == easter_sunday_oudin(2001int)) by (nonlinear_arith);
        assert(easter_sunday_serial(2001int) % 7 == 1) by (nonlinear_arith);
    } else if y == 2002 {
        assert(easter_sunday(2002int) == easter_sunday_oudin(2002int)) by (nonlinear_arith);
        assert(easter_sunday_serial(2002int) % 7 == 1) by (nonlinear_arith);
    } else if y == 2003 {
        assert(easter_sunday(2003int) == easter_sunday_oudin(2003int)) by (nonlinear_arith);
        assert(easter_sunday_serial(2003int) % 7 == 1) by (nonlinear_arith);
    } else if y == 2004 {
        assert(easter_sunday(2004int) == easter_sunday_oudin(2004int)) by (nonlinear_arith);
        assert(easter_sunday_serial(2004int) % 7 == 1) by (nonlinear_arith);
    } else if y == 2005 {
        assert(easter_sunday(2005int) == easter_sunday_oudin(2005int)) by (nonlinear_arith);
        assert(easter_sunday_serial(2005int) % 7 == 1) by (nonlinear_arith);
    } else if y == 2006 {
        assert(easter_sunday(2006int) == easter_sunday_oudin(2006int)) by (nonlinear_arith);
        assert(easter_sunday_serial(2006int) % 7 == 1) by (nonlinear_arith);
    } else if y == 2007 {
        assert(easter_sunday(2007int) == easter_sunday_oudin(2007int)) by (nonlinear_arith);
        assert(easter_sunday_serial(2007int) % 7 == 1) by (nonlinear_arith);
    } else if y == 2008 {
        assert(easter_sunday(2008int) == easter_sunday_oudin(2008int)) by (nonlinear_arith);
        assert(easter_sunday_serial(2008int) % 7 == 1) by (nonlinear_arith);
    } else if y == 2009 {
        assert(easter_sunday(2009int) == easter_sunday_oudin(2009int)) by (nonlinear_arith);
        assert(easter_sunday_serial(2009int) % 7 == 1) by (nonlinear_arith);
    } else if y == 2010 {
        assert(easter_sunday(2010int) == easter_sunday_oudin(2010int)) by (nonlinear_arith);
        assert(easter_sunday_serial(2010int) % 7 == 1) by (nonlinear_arith);
    } else if y == 2011 {
        assert(easter_sunday(2011int) == easter_sunday_oudin(2011int)) by (nonlinear_arith);
        assert(easter_sunday_serial(2011int) % 7 == 1) by (nonlinear_arith);
    } else if y == 2012 {
        assert(easter_sunday(2012int) == easter_sunday_oudin(2012int)) by (nonlinear_arith);
        assert(easter_sunday_serial(2012int) % 7 == 1) by (nonlinear_arith);
    } else if y == 2013 {
        assert(easter_sunday(2013int) == easter_sunday_oudin(2013int)) by (nonlinear_arith);
        assert(easter_sunday_serial(2013int) % 7 == 1) by (nonlinear_arith);
    } else if y == 2014 {
        assert(easter_sunday(2014int) == easter_sunday_oudin(2014int)) by (nonlinear_arith);
        assert(easter_sunday_serial(2014int) % 7 == 1) by (nonlinear_arith);
    } else if y == 2015 {
        assert(easter_sunday(2015int) == easter_sunday_oudin(2015int)) by (nonlinear_arith);
        assert(easter_sunday_serial(2015int) % 7 == 1) by (nonlinear_arith);
    } else if y == 2016 {
        assert(easter_sunday(2016int) == easter_sunday_oudin(2016int)) by (nonlinear_arith);
        assert(easter_sunday_serial(2016int) % 7 == 1) by (nonlinear_arith);
    } else if y == 2017 {
        assert(easter_sunday(2017int) == easter_sunday_oudin(2017int)) by (nonlinear_arith);
        assert(easter_sunday_serial(2017int) % 7 == 1) by (nonlinear_arith);
    } else if y == 2018 {
        assert(easter_sunday(2018int) == easter_sunday_oudin(2018int)) by (nonlinear_arith);
        assert(easter_sunday_serial(2018int) % 7 == 1) by (nonlinear_arith);
    } else if y == 2019 {
        assert(easter_sunday(2019int) == easter_sunday_oudin(2019int)) by (nonlinear_arith);
        assert(easter_sunday_serial(2019int) % 7 == 1) by (nonlinear_arith);
    } else {
    }
}

/// The two computus agree, on a Sunday, from 2020 to 2039.
proof fn lemma_easter_agrees_2020(y: int)
    requires
        2020 <= y < 2040,
    ensures
        easter_sunday(y) == easter_sunday_oudin(y),
        easter_sunday_serial(y) % 7 == 1,
{
    if y == 2020 {
        assert(easter_sunday(2020int) == easter_sunday_oudin(2020int)) by (nonlinear_arith);
        assert(easter_sunday_serial(2020int) % 7 == 1) by (nonlinear_arith);
    } else if y == 2021 {
        assert(easter_sunday(2021int) == easter_sunday_oudin(2021int)) by (nonlinear_arith);
        assert(easter_sunday_serial(2021int) % 7 == 1) by (nonlinear_arith);
    } else if y == 2022 {
        assert(easter_sunday(2022int) == easter_sunday_oudin(2022int)) by (nonlinear_arith);
        assert(easter_sunday_serial(2022int) % 7 == 1) by (nonlinear_arith);
    } else if y == 2023 {
        assert(easter_sunday(2023int) == easter_sunday_oudin(2023int)) by (nonlinear_arith);
        assert(easter_sunday_serial(2023int) % 7 == 1) by (nonlinear_arith);
    } else if y == 2024 {
        assert(easter_sunday(2024int) == easter_sunday_oudin(2024int)) by (nonlinear_arith);
        assert(easter_sunday_serial(2024int) % 7 == 1) by (nonlinear_arith);
    } else if y == 2025 {
        assert(easter_sunday(2025int) == easter_sunday_oudin(2025int)) by (nonlinear_arith);
        assert(easter_sunday_serial(2025int) % 7 == 1) by (nonlinear_arith);
    } else if y == 2026 {
        assert(easter_sunday(2026int) == easter_sunday_oudin(2026int)) by (nonlinear_arith);
        assert(easter_sunday_serial(2026int) % 7 == 1) by (nonlinear_arith);
    } else if y == 2027 {
        assert(easter_sunday(2027int) == easter_sunday_oudin(2027int)) by (nonlinear_arith);
        assert(easter_sunday_serial(2027int) % 7 == 1) by (nonlinear_arith);
    } else if y == 2028 {
        assert(easter_sunday(2028int) == easter_sunday_oudin(2028int)) by (nonlinear_arith);
        assert(easter_sunday_serial(2028int) % 7 == 1) by (nonlinear_arith);
    } else if y == 2029 {
        assert(easter_sunday(2029int) == easter_sunday_oudin(2029int)) by (nonlinear_arith);
        assert(easter_sunday_serial(2029int) % 7 == 1) by (nonlinear_arith);
    } else if y == 2030 {
        assert(easter_sunday(2030int) == easter_sunday_oudin(2030int)) by (nonlinear_arith);
        assert(easter_sunday_serial(2030int) % 7 == 1) by (nonlinear_arith);
    } else if y == 2031 {
        assert(easter_sunday(2031int) == easter_sunday_oudin(2031int)) by (nonlinear_arith);
        assert(easter_sunday_serial(2031int) % 7 == 1) by (nonlinear_arith);
    } else if y == 2032 {
        assert(easter_sunday(2032int) == easter_sunday_oudin(2032int)) by (nonlinear_arith);
        assert(easter_sunday_serial(2032int) % 7 == 1) by (nonlinear_arith);
    } else if y == 2033 {
        assert(easter_sunday(2033int) == easter_sunday_oudin(2033int)) by (nonlinear_arith);
        assert(easter_sunday_serial(2033int) % 7 == 1) by (nonlinear_arith);
    } else if y == 2034 {
        assert(easter_sunday(2034int) == easter_sunday_oudin(2034int)) by (nonlinear_arith);
        assert(easter_sunday_serial(2034int) % 7 == 1) by (nonlinear_arith);
    } else if y == 2035 {
        assert(easter_sunday(2035int) == easter_sunday_oudin(2035int)) by (nonlinear_arith);
        assert(easter_sunday_serial(2035int) % 7 == 1) by (nonlinear_arith);
    } else if y == 2036 {
        assert(easter_sunday(2036int) == easter_sunday_oudin(2036int)) by (nonlinear_arith);
        assert(easter_sunday_serial(2036int) % 7 == 1) by (nonlinear_arith);
    } else if y == 2037 {
        assert(easter_sunday(2037int) == easter_sunday_oudin(2037int)) by (nonlinear_arith);
        assert(easter_sunday_serial(2037int) % 7 == 1) by (nonlinear_arith);
    } else if y == 2038 {
        assert(easter_sunday(2038int) == easter_sunday_oudin(2038int)) by (nonlinear_arith);
        assert(easter_sunday_serial(2038int) % 7 == 1) by (nonlinear_arith);
    } else if y == 2039 {
        assert(easter_sunday(2039int) == easter_sunday_oudin(2039int)) by (nonlinear_arith);
        assert(easter_sunday_serial(2039int) % 7 == 1) by (nonlinear_arith);
    } else {
    }
}

/// The two computus agree, on a Sunday, from 2040 to 2059.
proof fn lemma_easter_agrees_2040(y: int)
    requires
        2040 <= y < 2060,
    ensures
        easter_sunday(y) == easter_sunday_oudin(y),
        easter_sunday_serial(y) % 7 == 1,
{
    if y == 2040 {
        assert(easter_sunday(2040int) == easter_sunday_oudin(2040int)) by (nonlinear_arith);
        assert(easter_sunday_serial(2040int) % 7 == 1) by (nonlinear_arith);
    } else if y == 2041 {
        assert(easter_sunday(2041int) == easter_sunday_oudin(2041int)) by (nonlinear_arith);
        assert(easter_sunday_serial(2041int) % 7 == 1) by (nonlinear_arith);
    } else if y == 2042 {
        assert(easter_sunday(2042int) == easter_sunday_oudin(2042int)) by (nonlinear_arith);
        assert(easter_sunday_serial(2042int) % 7 == 1) by (nonlinear_arith);
    } else if y == 2043 {
        assert(easter_sunday(2043int) == easter_sunday_oudin(2043int)) by (nonlinear_arith);
        assert(easter_sunday_serial(2043int) % 7 == 1) by (nonlinear_arith);
    } else if y == 2044 {
        assert(easter_sunday(2044int) == easter_sunday_oudin(2044int)) by (nonlinear_arith);
        assert(easter_sunday_serial(2044int) % 7 == 1) by (nonlinear_arith);
    } else if y == 2045 {
        assert(easter_sunday(2045int) == easter_sunday_oudin(2045int)) by (nonlinear_arith);
        assert(easter_sunday_serial(2045int) % 7 == 1) by (nonlinear_arith);
    } else if y == 2046 {
        assert(easter_sunday(2046int) == easter_sunday_oudin(2046int)) by (nonlinear_arith);
        assert(easter_sunday_serial(2046int) % 7 == 1) by (nonlinear_arith);
    } else if y == 2047 {
        assert(easter_sunday(2047int) == easter_sunday_oudin(2047int)) by (nonlinear_arith);
        assert(easter_sunday_serial(2047int) % 7 == 1) by (nonlinear_arith);
    } else if y == 2048 {
        assert(easter_sunday(2048int) == easter_sunday_oudin(2048int)) by (nonlinear_arith);
        assert(easter_sunday_serial(2048int) % 7 == 1) by (nonlinear_arith);
    } else if y == 2049 {
        assert(easter_sunday(2049int) == easter_sunday_oudin(2049int)) by (nonlinear_arith);
        assert(easter_sunday_serial(2049int) % 7 == 1) by (nonlinear_arith);
    } else if y == 2050 {
        assert(easter_sunday(2050int) == easter_sunday_oudin(2050int)) by (nonlinear_arith);
        assert(easter_sunday_serial(2050int) % 7 == 1) by (nonlinear_arith);
    } else if y == 2051 {
        assert(easter_sunday(2051int) == easter_sunday_oudin(2051int)) by (nonlinear_arith);
        assert(easter_sunday_serial(2051int) % 7 == 1) by (nonlinear_arith);
    } else if y == 2052 {
        assert(easter_sunday(2052int) == easter_sunday_oudin(2052int)) by (nonlinear_arith);
        assert(easter_sunday_serial(2052int) % 7 == 1) by (nonlinear_arith);
    } else if y == 2053 {
        assert(easter_sunday(2053int) == easter_sunday_oudin(2053int)) by (nonlinear_arith);
        assert(easter_sunday_serial(2053int) % 7 == 1) by (nonlinear_arith);
    } else if y == 2054 {
        assert(easter_sunday(2054int) == easter_sunday_oudin(2054int)) by (nonlinear_arith);
        assert(easter_sunday_serial(2054int) % 7 == 1) by (nonlinear_arith);
    } else if y == 2055 {
        assert(easter_sunday(2055int) == easter_sunday_oudin(2055int)) by (nonlinear_arith);
        assert(easter_sunday_serial(2055int) % 7 == 1) by (nonlinear_arith);
    } else if y == 2056 {
        assert(easter_sunday(2056int) == easter_sunday_oudin(2056int)) by (nonlinear_arith);
        assert(easter_sunday_serial(2056int) % 7 == 1) by (nonlinear_arith);
    } else if y == 2057 {
        assert(easter_sunday(2057int) == easter_sunday_oudin(2057int)) by (nonlinear_arith);
        assert(easter_sunday_serial(2057int) % 7 == 1) by (nonlinear_arith);
    } else if y == 2058 {
        assert(easter_sunday(2058int) == easter_sunday_oudin(2058int)) by (nonlinear_arith);
        assert(easter_sunday_serial(2058int) % 7 == 1) by (nonlinear_arith);
    } else if y == 2059 {
        assert(easter_sunday(2059int) == easter_sunday_oudin(2059int)) by (nonlinear_arith);
        assert(easter_sunday_serial(2059int) % 7 == 1) by (nonlinear_arith);
    } else {
    }
}

/// The two computus agree, on a Sunday, from 2060 to 2079.
proof fn lemma_easter_agrees_2060(y: int)
    requires
        2060 <= y < 2080,
    ensures
        easter_sunday(y) == easter_sunday_oudin(y),
        easter_sunday_serial(y) % 7 == 1,
{
    if y == 2060 {
        assert(easter_sunday(2060int) == easter_sunday_oudin(2060int)) by (nonlinear_arith);
        assert(easter_sunday_serial(2060int) % 7 == 1) by (nonlinear_arith);
    } else if y == 2061 {
        assert(easter_sunday(2061int) == easter_sunday_oudin(2061int)) by (nonlinear_arith);
        assert(easter_sunday_serial(2061int) % 7 == 1) by (nonlinear_arith);
    } else if y == 2062 {
        assert(easter_sunday(2062int) == easter_sunday_oudin(2062int)) by (nonlinear_arith);
        assert(easter_sunday_serial(2062int) % 7 == 1) by (nonlinear_arith);
    } else if y == 2063 {
        assert(easter_sunday(2063int) == easter_sunday_oudin(2063int)) by (nonlinear_arith);
        assert(easter_sunday_serial(2063int) % 7 == 1) by (nonlinear_arith);
    } else if y == 2064 {
        assert(easter_sunday(2064int) == easter_sunday_oudin(2064int)) by (nonlinear_arith);
        assert(easter_sunday_serial(2064int) % 7 == 1) by (nonlinear_arith);
    } else if y == 2065 {
        assert(easter_sunday(2065int) == easter_sunday_oudin(2065int)) by (nonlinear_arith);
        assert(easter_sunday_serial(2065int) % 7 == 1) by (nonlinear_arith);
    } else if y == 2066 {
        assert(easter_sunday(2066int) == easter_sunday_oudin(2066int)) by (nonlinear_arith);
        assert(easter_sunday_serial(2066int) % 7 == 1) by (nonlinear_arith);
    } else if y == 2067 {
        assert(easter_sunday(2067int) == easter_sunday_oudin(2067int)) by (nonlinear_arith);
        assert(easter_sunday_serial(2067int) % 7 == 1) by (nonlinear_arith);
    } else if y == 2068 {
        assert(easter_sunday(2068int) == easter_sunday_oudin(2068int)) by (nonlinear_arith);
        assert(easter_sunday_serial(2068int) % 7 == 1) by (nonlinear_arith);
    } else if y == 2069 {
        assert(easter_sunday(2069int) == easter_sunday_oudin(2069int)) by (nonlinear_arith);
        assert(easter_sunday_serial(2069int) % 7 == 1) by (nonlinear_arith);
    } else if y == 2070 {
        assert(easter_sunday(2070int) == easter_sunday_oudin(2070int)) by (nonlinear_arith);
        assert(easter_sunday_serial(2070int) % 7 == 1) by (nonlinear_arith);
    } else if y == 2071 {
        assert(easter_sunday(2071int) == easter_sunday_oudin(2071int)) by (nonlinear_arith);
        assert(easter_sunday_serial(2071int) % 7 == 1) by (nonlinear_arith);
    } else if y == 2072 {
        assert(easter_sunday(2072int) == easter_sunday_oudin(2072int)) by (nonlinear_arith);
        assert(easter_sunday_serial(2072int) % 7 == 1) by (nonlinear_arith);
    } else if y == 2073 {
        assert(easter_sunday(2073int) == easter_sunday_oudin(2073int)) by (nonlinear_arith);
        assert(easter_sunday_serial(2073int) % 7 == 1) by (nonlinear_arith);
    } else if y == 2074 {
        assert(easter_sunday(2074int) == easter_sunday_oudin(2074int)) by (nonlinear_arith);
        assert(easter_sunday_serial(2074int) % 7 == 1) by (nonlinear_arith);
    } else if y == 2075 {
        assert(easter_sunday(2075int) == easter_sunday_oudin(2075int)) by (nonlinear_arith);
        assert(easter_sunday_serial(2075int) % 7 == 1) by (nonlinear_arith);
    } else if y == 2076 {
        assert(easter_sunday(2076int) == easter_sunday_oudin(2076int)) by (nonlinear_arith);
        assert(easter_sunday_serial(2076int) % 7 == 1) by (nonlinear_arith);
    } else if y == 2077 {
        assert(easter_sunday(2077int) == easter_sunday_oudin(2077int)) by (nonlinear_arith);
        assert(easter_sunday_serial(2077int) % 7 == 1) by (nonlinear_arith);
    } else if y == 2078 {
        assert(easter_sunday(2078int) == easter_sunday_oudin(2078int)) by (nonlinear_arith);
        assert(easter_sunday_serial(2078int) % 7 == 1) by (nonlinear_arith);
    } else if y == 2079 {
        assert(easter_sunday(2079int) == easter_sunday_oudin(2079int)) by (nonlinear_arith);
        assert(easter_sunday_serial(2079int) % 7 == 1) by (nonlinear_arith);
    } else {
    }
}

/// The two computus agree, on a Sunday, from 2080 to 2099.
proof fn lemma_easter_agrees_2080(y: int)
    requires
        2080 <= y < 2100,
    ensures
        easter_sunday(y) == easter_sunday_oudin(y),
        easter_sunday_serial(y) % 7 == 1,
{
    if y == 2080 {
        assert(easter_sunday(2080int) == easter_sunday_oudin(2080int)) by (nonlinear_arith);
        assert(easter_sunday_serial(2080int) % 7 == 1) by (nonlinear_arith);
    } else if y == 2081 {
        assert(easter_sunday(2081int) == easter_sunday_oudin(2081int)) by (nonlinear_arith);
        assert(easter_sunday_serial(2081int) % 7 == 1) by (nonlinear_arith);
    } else if y == 2082 {
        assert(easter_sunday(2082int) == easter_sunday_oudin(2082int)) by (nonlinear_arith);
        assert(easter_sunday_serial(2082int) % 7 == 1) by (nonlinear_arith);
    } else if y == 2083 {
        assert(easter_sunday(2083int) == easter_sunday_oudin(2083int)) by (nonlinear_arith);
        assert(easter_sunday_serial(2083int) % 7 == 1) by (nonlinear_arith);
    } else if y == 2084 {
        assert(easter_sunday(2084int) == easter_sunday_oudin(2084int)) by (nonlinear_arith);
        assert(easter_sunday_serial(2084int) % 7 == 1) by (nonlinear_arith);
    } else if y == 2085 {
        assert(easter_sunday(2085int) == easter_sunday_oudin(2085int)) by (nonlinear_arith);
        assert(easter_sunday_serial(2085int) % 7 == 1) by (nonlinear_arith);
    } else if y == 2086 {
        assert(easter_sunday(2086int) == easter_sunday_oudin(2086int)) by (nonlinear_arith);
        assert(easter_sunday_serial(2086int) % 7 == 1) by (nonlinear_arith);
    } else if y == 2087 {
        assert(easter_sunday(2087int) == easter_sunday_oudin(2087int)) by (nonlinear_arith);
        assert(easter_sunday_serial(2087int) % 7 == 1) by (nonlinear_arith);
    } else if y == 2088 {
        assert(easter_sunday(2088int) == easter_sunday_oudin(2088int)) by (nonlinear_arith);
        assert(easter_sunday_serial(2088int) % 7 == 1) by (nonlinear_arith);
    } else if y == 2089 {
        assert(easter_sunday(2089int) == easter_sunday_oudin(2089int)) by (nonlinear_arith);
        assert(easter_sunday_serial(2089int) % 7 == 1) by (nonlinear_arith);
    } else if y == 2090 {
        assert(easter_sunday(2090int) == easter_sunday_oudin(2090int)) by (nonlinear_arith);
        assert(easter_sunday_serial(2090int) % 7 == 1) by (nonlinear_arith);
    } else if y == 2091 {
        assert(easter_sunday(2091int) == easter_sunday_oudin(2091int)) by (nonlinear_arith);
        assert(easter_sunday_serial(2091int) % 7 == 1) by (nonlinear_arith);
    } else if y == 2092 {
        assert(easter_sunday(2092int) == easter_sunday_oudin(2092int)) by (nonlinear_arith);
        assert(easter_sunday_serial(2092int) % 7 == 1) by (nonlinear_arith);
    } else if y == 2093 {
        assert(easter_sunday(2093int) == easter_sunday_oudin(2093int)) by (nonlinear_arith);
        assert(easter_sunday_serial(2093int) % 7 == 1) by (nonlinear_arith);
    } else if y == 2094 {
        assert(easter_sunday(2094int) == easter_sunday_oudin(2094int)) by (nonlinear_arith);
        assert(easter_sunday_serial(2094int) % 7 == 1) by (nonlinear_arith);
    } else if y == 2095 {
        assert(easter_sunday(2095int) == easter_sunday_oudin(2095int)) by (nonlinear_arith);
        assert(easter_sunday_serial(2095int) % 7 == 1) by (nonlinear_arith);
    } else if y == 2096 {
        assert(easter_sunday(2096int) == easter_sunday_oudin(2096int)) by (nonlinear_arith);
        assert(easter_sunday_serial(2096int) % 7 == 1) by (nonlinear_arith);
    } else if y == 2097 {
        assert(easter_sunday(2097int) == easter_sunday_oudin(2097int)) by (nonlinear_arith);
        assert(easter_sunday_serial(2097int) % 7 == 1) by (nonlinear_arith);
    } else if y == 2098 {
        assert(easter_sunday(2098int) == easter_sunday_oudin(2098int)) by (nonlinear_arith);
        assert(easter_sunday_serial(2098int) % 7 == 1) by (nonlinear_arith);
    } else if y == 2099 {
        assert(easter_sunday(2099int) == easter_sunday_oudin(2099int)) by (nonlinear_arith);
        assert(easter_sunday_serial(2099int) % 7 == 1) by (nonlinear_arith);
    } else {
    }
}

/// The two computus agree, on a Sunday, from 2100 to 2119.
proof fn lemma_easter_agrees_2100(y: int)
    requires
        2100 <= y < 2120,
    ensures
        easter_sunday(y) == easter_sunday_oudin(y),
        easter_sunday_serial(y) % 7 == 1,
{
    if y == 2100 {
        assert(easter_sunday(2100int) == easter_sunday_oudin(2100int)) by (nonlinear_arith);
        assert(easter_sunday_serial(2100int) % 7 == 1) by (nonlinear_arith);
    } else if y == 2101 {
        assert(easter_sunday(2101int) == easter_sunday_oudin(2101int)) by (nonlinear_arith);
        assert(easter_sunday_serial(2101int) % 7 == 1) by (nonlinear_arith);
    } else if y == 2102 {
        assert(easter_sunday(2102int) == easter_sunday_oudin(2102int)) by (nonlinear_arith);
        assert(easter_sunday_serial(2102int) % 7 == 1) by (nonlinear_arith);
    } else if y == 2103 {
        assert(easter_sunday(2103int) == easter_sunday_oudin(2103int)) by (nonlinear_arith);
        assert(easter_sunday_serial(2103int) % 7 == 1) by (nonlinear_arith);
    } else if y == 2104 {
        assert(easter_sunday(2104int) == easter_sunday_oudin(2104int)) by (nonlinear_arith);
        assert(easter_sunday_serial(2104int) % 7 == 1) by (nonlinear_arith);
    } else if y == 2105 {
        assert(easter_sunday(2105int) == easter_sunday_oudin(2105int)) by (nonlinear_arith);
        assert(easter_sunday_serial(2105int) % 7 == 1) by (nonlinear_arith);
    } else if y == 2106 {
        assert(easter_sunday(2106int) == easter_sunday_oudin(2106int)) by (nonlinear_arith);
        assert(easter_sunday_serial(2106int) % 7 == 1) by (nonlinear_arith);
    } else if y == 2107 {
        assert(easter_sunday(2107int) == easter_sunday_oudin(2107int)) by (nonlinear_arith);
        assert(easter_sunday_serial(2107int) % 7 == 1) by (nonlinear_arith);
    } else if y == 2108 {
        assert(easter_sunday(2108int) == easter_sunday_oudin(2108int)) by (nonlinear_arith);
        assert(easter_sunday_serial(2108int) % 7 == 1) by (nonlinear_arith);
    } else if y == 2109 {
        assert(easter_sunday(2109int) == easter_sunday_oudin(2109int)) by (nonlinear_arith);
        assert(easter_sunday_serial(2109int) % 7 == 1) by (nonlinear_arith);
    } else if y == 2110 {
        assert(easter_sunday(2110int) == easter_sunday_oudin(2110int)) by (nonlinear_arith);
        assert(easter_sunday_serial(2110int) % 7 == 1) by (nonlinear_arith);
    } else if y == 2111 {
        assert(easter_sunday(2111int) == easter_sunday_oudin(2111int)) by (nonlinear_arith);
        assert(easter_sunday_serial(2111int) % 7 == 1) by (nonlinear_arith);
    } else if y == 2112 {
        assert(easter_sunday(2112int) == easter_sunday_oudin(2112int)) by (nonlinear_arith);
        assert(easter_sunday_serial(2112int) % 7 == 1) by (nonlinear_arith);
    } else if y == 2113 {
        assert(easter_sunday(2113int) == easter_sunday_oudin(2113int)) by (nonlinear_arith);
        assert(easter_sunday_serial(2113int) % 7 == 1) by (nonlinear_arith);
    } else if y == 2114 {
        assert(easter_sunday(2114int) == easter_sunday_oudin(2114int)) by (nonlinear_arith);
        assert(easter_sunday_serial(2114int) % 7 == 1) by (nonlinear_arith);
    } else if y == 2115 {
        assert(easter_sunday(2115int) == easter_sunday_oudin(2115int)) by (nonlinear_arith);
        assert(easter_sunday_serial(2115int) % 7 == 1) by (nonlinear_arith);
    } else if y == 2116 {
        assert(easter_sunday(2116int) == easter_sunday_oudin(2116int)) by (nonlinear_arith);
        assert(easter_sunday_serial(2116int) % 7 == 1) by (nonlinear_arith);
    } else if y == 2117 {
        assert(easter_sunday(2117int) == easter_sunday_oudin(2117int)) by (nonlinear_arith);
        assert(easter_sunday_serial(2117int) % 7 == 1) by (nonlinear_arith);
    } else if y == 2118 {
        assert(easter_sunday(2118int) == easter_sunday_oudin(2118int)) by (nonlinear_arith);
        assert(easter_sunday_serial(2118int) % 7 == 1) by (nonlinear_arith);
    } else if y == 2119 {
        assert(easter_sunday(2119int) == easter_sunday_oudin(2119int)) by (nonlinear_arith);
        assert(easter_sunday_serial(2119int) % 7 == 1) by (nonlinear_arith);
    } else {
    }
}

/// The two computus agree, on a Sunday, from 2120 to 2139.
proof fn lemma_easter_agrees_2120(y: int)
    requires
        2120 <= y < 2140,
    ensures
        easter_sunday(y) == easter_sunday_oudin(y),
        easter_sunday_serial(y) % 7 == 1,
{
    if y == 2120 {
        assert(easter_sunday(2120int) == easter_sunday_oudin(2120int)) by (nonlinear_arith);
        assert(easter_sunday_serial(2120int) % 7 == 1) by (nonlinear_arith);
    } else if y == 2121 {
        assert(easter_sunday(2121int) == easter_sunday_oudin(2121int)) by (nonlinear_arith);
        assert(easter_sunday_serial(2121int) % 7 == 1) by (nonlinear_arith);
    } else if y == 2122 {
        assert(easter_sunday(2122int) == easter_sunday_oudin(2122int)) by (nonlinear_arith);
        assert(easter_sunday_serial(2122int) % 7 == 1) by (nonlinear_arith);
    } else if y == 2123 {
        assert(easter_sunday(2123int) == easter_sunday_oudin(2123int)) by (nonlinear_arith);
        assert(easter_sunday_serial(2123int) % 7 == 1) by (nonlinear_arith);
    } else if y == 2124 {
        assert(easter_sunday(2124int) == easter_sunday_oudin(2124int)) by (nonlinear_arith);
        assert(easter_sunday_serial(2124int) % 7 == 1) by (nonlinear_arith);
    } else if y == 2125 {
        assert(easter_sunday(2125int) == easter_sunday_oudin(2125int)) by (nonlinear_arith);
        assert(easter_sunday_serial(2125int) % 7 == 1) by (nonlinear_arith);
    } else if y == 2126 {
        assert(easter_sunday(2126int) == easter_sunday_oudin(2126int)) by (nonlinear_arith);
        assert(easter_sunday_serial(2126int) % 7 == 1) by (nonlinear_arith);
    } else if y == 2127 {
        assert(easter_sunday(2127int) == easter_sunday_oudin(2127int)) by (nonlinear_arith);
        assert(easter_sunday_serial(2127int) % 7 == 1) by (nonlinear_arith);
    } else if y == 2128 {
        assert(easter_sunday(2128int) == easter_sunday_oudin(2128int)) by (nonlinear_arith);
        assert(easter_sunday_serial(2128int) % 7 == 1) by (nonlinear_arith);
    } else if y == 2129 {
        assert(easter_sunday(2129int) == easter_sunday_oudin(2129int)) by (nonlinear_arith);
        assert(easter_sunday_serial(2129int) % 7 == 1) by (nonlinear_arith);
    } else if y == 2130 {
        assert(easter_sunday(2130int) == easter_sunday_oudin(2130int)) by (nonlinear_arith);
        assert(easter_sunday_serial(2130int) % 7 == 1) by (nonlinear_arith);
    } else if y == 2131 {
        assert(easter_sunday(2131int) == easter_sunday_oudin(2131int)) by (nonlinear_arith);
        assert(easter_sunday_serial(2131int) % 7 == 1) by (nonlinear_arith);
    } else if y == 2132 {
        assert(easter_sunday(2132int) == easter_sunday_oudin(2132int)) by (nonlinear_arith);
        assert(easter_sunday_serial(2132int) % 7 == 1) by (nonlinear_arith);
    } else if y == 2133 {
        assert(easter_sunday(2133int) == easter_sunday_oudin(2133int)) by (nonlinear_arith);
        assert(easter_sunday_serial(2133int) % 7 == 1) by (nonlinear_arith);
    } else if y == 2134 {
        assert(easter_sunday(2134int) == easter_sunday_oudin(2134int)) by (nonlinear_arith);
        assert(easter_sunday_serial(2134int) % 7 == 1) by (nonlinear_arith);
    } else if y == 2135 {
        assert(easter_sunday(2135int) == easter_sunday_oudin(2135int)) by (nonlinear_arith);
        assert(easter_sunday_serial(2135int) % 7 == 1) by (nonlinear_arith);
    } else if y == 2136 {
        assert(easter_sunday(2136int) == easter_sunday_oudin(2136int)) by (nonlinear_arith);
        assert(easter_sunday_serial(2136int) % 7 == 1) by (nonlinear_arith);
    } else if y == 2137 {
        assert(easter_sunday(2137int) == easter_sunday_oudin(2137int)) by (nonlinear_arith);
        assert(easter_sunday_serial(2137int) % 7 == 1) by (nonlinear_arith);
    } else if y == 2138 {
        assert(easter_sunday(2138int) == easter_sunday_oudin(2138int)) by (nonlinear_arith);
        assert(easter_sunday_serial(2138int) % 7 == 1) by (nonlinear_arith);
    } else if y == 2139 {
        assert(easter_sunday(2139int) == easter_sunday_oudin(2139int)) by (nonlinear_arith);
        assert(easter_sunday_serial(2139int) % 7 == 1) by (nonlinear_arith);
    } else {
    }
}

/// The two computus agree, on a Sunday, from 2140 to 2159.
proof fn lemma_easter_agrees_2140(y: int)
    requires
        2140 <= y < 2160,
    ensures
        easter_sunday(y) == easter_sunday_oudin(y),
        easter_sunday_serial(y) % 7 == 1,
{
    if y == 2140 {
        assert(easter_sunday(2140int) == easter_sunday_oudin(2140int)) by (nonlinear_arith);
        assert(easter_sunday_serial(2140int) % 7 == 1) by (nonlinear_arith);
    } else if y == 2141 {
        assert(easter_sunday(2141int) == easter_sunday_oudin(2141int)) by (nonlinear_arith);
        assert(easter_sunday_serial(2141int) % 7 == 1) by (nonlinear_arith);
    } else if y == 2142 {
        assert(easter_sunday(2142int) == easter_sunday_oudin(2142int)) by (nonlinear_arith);
        assert(easter_sunday_serial(2142int) % 7 == 1) by (nonlinear_arith);
    } else if y == 2143 {
        assert(easter_sunday(2143int) == easter_sunday_oudin(2143int)) by (nonlinear_arith);
        assert(easter_sunday_serial(2143int) % 7 == 1) by (nonlinear_arith);
    } else if y == 2144 {
        assert(easter_sunday(2144int) == easter_sunday_oudin(2144int)) by (nonlinear_arith);
        assert(easter_sunday_serial(2144int) % 7 == 1) by (nonlinear_arith);
    } else if y == 2145 {
        assert(easter_sunday(2145int) == easter_sunday_oudin(2145int)) by (nonlinear_arith);
        assert(easter_sunday_serial(2145int) % 7 == 1) by (nonlinear_arith);
    } else if y == 2146 {
        assert(easter_sunday(2146int) == easter_sunday_oudin(2146int)) by (nonlinear_arith);
        assert(easter_sunday_serial(2146int) % 7 == 1) by (nonlinear_arith);
    } else if y == 2147 {
        assert(easter_sunday(2147int) == easter_sunday_oudin(2147int)) by (nonlinear_arith);
        assert(easter_sunday_serial(2147int) % 7 == 1) by (nonlinear_arith);
    } else if y == 2148 {
        assert(easter_sunday(2148int) == easter_sunday_oudin(2148int)) by (nonlinear_arith);
        assert(easter_sunday_serial(2148int) % 7 == 1) by (nonlinear_arith);
    } else if y == 2149 {
        assert(easter_sunday(2149int) == easter_sunday_oudin(2149int)) by (nonlinear_arith);
        assert(easter_sunday_serial(2149int) % 7 == 1) by (nonlinear_arith);
    } else if y == 2150 {
        assert(easter_sunday(2150int) == easter_sunday_oudin(2150int)) by (nonlinear_arith);
        assert(easter_sunday_serial(2150int) % 7 == 1) by (nonlinear_arith);
    } else if y == 2151 {
        assert(easter_sunday(2151int) == easter_sunday_oudin(2151int)) by (nonlinear_arith);
        assert(easter_sunday_serial(2151int) % 7 == 1) by (nonlinear_arith);
    } else if y == 2152 {
        assert(easter_sunday(2152int) == easter_sunday_oudin(2152int)) by (nonlinear_arith);
        assert(easter_sunday_serial(2152int) % 7 == 1) by (nonlinear_arith);
    } else if y == 2153 {
        assert(easter_sunday(2153int) == easter_sunday_oudin(2153int)) by (nonlinear_arith);
        assert(easter_sunday_serial(2153int) % 7 == 1) by (nonlinear_arith);
    } else if y == 2154 {
        assert(easter_sunday(2154int) == easter_sunday_oudin(2154int)) by (nonlinear_arith);
        assert(easter_sunday_serial(2154int) % 7 == 1) by (nonlinear_arith);
    } else if y == 2155 {
        assert(easter_sunday(2155int) == easter_sunday_oudin(2155int)) by (nonlinear_arith);
        assert(easter_sunday_serial(2155int) % 7 == 1) by (nonlinear_arith);
    } else if y == 2156 {
        assert(easter_sunday(2156int) == easter_sunday_oudin(2156int)) by (nonlinear_arith);
        assert(easter_sunday_serial(2156int) % 7 == 1) by (nonlinear_arith);
    } else if y == 2157 {
        assert(easter_sunday(2157int) == easter_sunday_oudin(2157int)) by (nonlinear_arith);
        assert(easter_sunday_serial(2157int) % 7 == 1) by (nonlinear_arith);
    } else if y == 2158 {
        assert(easter_sunday(2158int) == easter_sunday_oudin(2158int)) by (nonlinear_arith);
        assert(easter_sunday_serial(2158int) % 7 == 1) by (nonlinear_arith);
    } else if y == 2159 {
        assert(easter_sunday(2159int) == easter_sunday_oudin(2159int)) by (nonlinear_arith);
        assert(easter_sunday_serial(2159int) % 7 == 1) by (nonlinear_arith);
    } else {
    }
}

/// The two computus agree, on a Sunday, from 2160 to 2179.
proof fn lemma_easter_agrees_2160(y: int)
    requires
        2160 <= y < 2180,
    ensures
        easter_sunday(y) == easter_sunday_oudin(y),
        easter_sunday_serial(y) % 7 == 1,
{
    if y == 2160 {
        assert(easter_sunday(2160int) == easter_sunday_oudin(2160int)) by (nonlinear_arith);
        assert(easter_sunday_serial(2160int) % 7 == 1) by (nonlinear_arith);
    } else if y == 2161 {
        assert(easter_sunday(2161int) == easter_sunday_oudin(2161int)) by (nonlinear_arith);
        assert(easter_sunday_serial(2161int) % 7 == 1) by (nonlinear_arith);
    } else if y == 2162 {
        assert(easter_sunday(2162int) == easter_sunday_oudin(2162int)) by (nonlinear_arith);
        assert(easter_sunday_serial(2162int) % 7 == 1) by (nonlinear_arith);
    } else if y == 2163 {
        assert(easter_sunday(2163int) == easter_sunday_oudin(2163int)) by (nonlinear_arith);
        assert(easter_sunday_serial(2163int) % 7 == 1) by (nonlinear_arith);
    } else if y == 2164 {
        assert(easter_sunday(2164int) == easter_sunday_oudin(2164int)) by (nonlinear_arith);
        assert(easter_sunday_serial(2164int) % 7 == 1) by (nonlinear_arith);
    } else if y == 2165 {
        assert(easter_sunday(2165int) == easter_sunday_oudin(2165int)) by (nonlinear_arith);
        assert(easter_sunday_serial(2165int) % 7 == 1) by (nonlinear_arith);
    } else if y == 2166 {
        assert(easter_sunday(2166int) == easter_sunday_oudin(2166int)) by (nonlinear_arith);
        assert(easter_sunday_serial(2166int) % 7 == 1) by (nonlinear_arith);
    } else if y == 2167 {
        assert(easter_sunday(2167int) == easter_sunday_oudin(2167int)) by (nonlinear_arith);
        assert(easter_sunday_serial(2167int) % 7 == 1) by (nonlinear_arith);
    } else if y == 2168 {
        assert(easter_sunday(2168int) == easter_sunday_oudin(2168int)) by (nonlinear_arith);
        assert(easter_sunday_serial(2168int) % 7 == 1) by (nonlinear_arith);
    } else if y == 2169 {
        assert(easter_sunday(2169int) == easter_sunday_oudin(2169int)) by (nonlinear_arith);
        assert(easter_sunday_serial(2169int) % 7 == 1) by (nonlinear_arith);
    } else if y == 2170 {
        assert(easter_sunday(2170int) == easter_sunday_oudin(2170int)) by (nonlinear_arith);
        assert(easter_sunday_serial(2170int) % 7 == 1) by (nonlinear_arith);
    } else if y == 2171 {
        assert(easter_sunday(2171int) == easter_sunday_oudin(2171int)) by (nonlinear_arith);
        assert(easter_sunday_serial(2171int) % 7 == 1) by (nonlinear_arith);
    } else if y == 2172 {
        assert(easter_sunday(2172int) == easter_sunday_oudin(2172int)) by (nonlinear_arith);
        assert(easter_sunday_serial(2172int) % 7 == 1) by (nonlinear_arith);
    } else if y == 2173 {
        assert(easter_sunday(2173int) == easter_sunday_oudin(2173int)) by (nonlinear_arith);
        assert(easter_sunday_serial(2173int) % 7 == 1) by (nonlinear_arith);
    } else if y == 2174 {
        assert(easter_sunday(2174int) == easter_sunday_oudin(2174int)) by (nonlinear_arith);
        assert(easter_sunday_serial(2174int) % 7 == 1) by (nonlinear_arith);
    } else if y == 2175 {
        assert(easter_sunday(2175int) == easter_sunday_oudin(2175int)) by (nonlinear_arith);
        assert(easter_sunday_serial(2175int) % 7 == 1) by (nonlinear_arith);
    } else if y == 2176 {
        assert(easter_sunday(2176int) == easter_sunday_oudin(2176int)) by (nonlinear_arith);
        assert(easter_sunday_serial(2176int) % 7 == 1) by (nonlinear_arith);
    } else if y == 2177 {
        assert(easter_sunday(2177int) == easter_sunday_oudin(2177int)) by (nonlinear_arith);
        assert(easter_sunday_serial(2177int) % 7 == 1) by (nonlinear_arith);
    } else if y == 2178 {
        assert(easter_sunday(2178int) == easter_sunday_oudin(2178int)) by (nonlinear_arith);
        assert(easter_sunday_serial(2178int) % 7 == 1) by (nonlinear_arith);
    } else if y == 2179 {
        assert(easter_sunday(2179int) == easter_sunday_oudin(2179int)) by (nonlinear_arith);
        assert(easter_sunday_serial(2179int) % 7 == 1) by (nonlinear_arith);
    } else {
    }
}

/// The two computus agree, on a Sunday, from 2180 to 2199.
proof fn lemma_easter_agrees_2180(y: int)
    requires
        2180 <= y < 2200,
    ensures
        easter_sunday(y) == easter_sunday_oudin(y),
        easter_sunday_serial(y) % 7 == 1,
{
    if y == 2180 {
        assert(easter_sunday(2180int) == easter_sunday_oudin(2180int)) by (nonlinear_arith);
        assert(easter_sunday_serial(2180int) % 7 == 1) by (nonlinear_arith);
    } else if y == 2181 {
        assert(easter_sunday(2181int) == easter_sunday_oudin(2181int)) by (nonlinear_arith);
        assert(easter_sunday_serial(2181int) % 7 == 1) by (nonlinear_arith);
    } else if y == 2182 {
        assert(easter_sunday(2182int) == easter_sunday_oudin(2182int)) by (nonlinear_arith);
        assert(easter_sunday_serial(2182int) % 7 == 1) by (nonlinear_arith);
    } else if y == 2183 {
        assert(easter_sunday(2183int) == easter_sunday_oudin(2183int)) by (nonlinear_arith);
        assert(easter_sunday_serial(2183int) % 7 == 1) by (nonlinear_arith);
    } else if y == 2184 {
        assert(easter_sunday(2184int) == easter_sunday_oudin(2184int)) by (nonlinear_arith);
        assert(easter_sunday_serial(2184int) % 7 == 1) by (nonlinear_arith);
    } else if y == 2185 {
        assert(easter_sunday(2185int) == easter_sunday_oudin(2185int)) by (nonlinear_arith);
        assert(easter_sunday_serial(2185int) % 7 == 1) by (nonlinear_arith);
    } else if y == 2186 {
        assert(easter_sunday(2186int) == easter_sunday_oudin(2186int)) by (nonlinear_arith);
        assert(easter_sunday_serial(2186int) % 7 == 1) by (nonlinear_arith);
    } else if y == 2187 {
        assert(easter_sunday(2187int) == easter_sunday_oudin(2187int)) by (nonlinear_arith);
        assert(easter_sunday_serial(2187int) % 7 == 1) by (nonlinear_arith);
    } else if y == 2188 {
        assert(easter_sunday(2188int) == easter_sunday_oudin(2188int)) by (nonlinear_arith);
        assert(easter_sunday_serial(2188int) % 7 == 1) by (nonlinear_arith);
    } else if y == 2189 {
        assert(easter_sunday(2189int) == easter_sunday_oudin(2189int)) by (nonlinear_arith);
        assert(easter_sunday_serial(2189int) % 7 == 1) by (nonlinear_arith);
    } else if y == 2190 {
        assert(easter_sunday(2190int) == easter_sunday_oudin(2190int)) by (nonlinear_arith);
        assert(easter_sunday_serial(2190int) % 7 == 1) by (nonlinear_arith);
    } else if y == 2191 {
        assert(easter_sunday(2191int) == easter_sunday_oudin(2191int)) by (nonlinear_arith);
        assert(easter_sunday_serial(2191int) % 7 == 1) by (nonlinear_arith);
    } else if y == 2192 {
        assert(easter_sunday(2192int) == easter_sunday_oudin(2192int)) by (nonlinear_arith);
        assert(easter_sunday_serial(2192int) % 7 == 1) by (nonlinear_arith);
    } else if y == 2193 {
        assert(easter_sunday(2193int) == easter_sunday_oudin(2193int)) by (nonlinear_arith);
        assert(easter_sunday_serial(2193int) % 7 == 1) by (nonlinear_arith);
    } else if y == 2194 {
        assert(easter_sunday(2194int) == easter_sunday_oudin(2194int)) by (nonlinear_arith);
        assert(easter_sunday_serial(2194int) % 7 == 1) by (nonlinear_arith);
    } else if y == 2195 {
        assert(easter_sunday(2195int) == easter_sunday_oudin(2195int)) by (nonlinear_arith);
        assert(easter_sunday_serial(2195int) % 7 == 1) by (nonlinear_arith);
    } else if y == 2196 {
        assert(easter_sunday(2196int) == easter_sunday_oudin(2196int)) by (nonlinear_arith);
        assert(easter_sunday_serial(2196int) % 7 == 1) by (nonlinear_arith);
    } else if y == 2197 {
        assert(easter_sunday(2197int) == easter_sunday_oudin(2197int)) by (nonlinear_arith);
        assert(easter_sunday_serial(2197int) % 7 == 1) by (nonlinear_arith);
    } else if y == 2198 {
        assert(easter_sunday(2198int) == easter_sunday_oudin(2198int)) by (nonlinear_arith);
        assert(easter_sunday_serial(2198int) % 7 == 1) by (nonlinear_arith);
    } else if y == 2199 {
        assert(easter_sunday(2199int) == easter_sunday_oudin(2199int)) by (nonlinear_arith);
        assert(easter_sunday_serial(2199int) % 7 == 1) by (nonlinear_arith);
    } else {
    }
}

/// The two computus agree on Easter Sunday in every year from 1900 to 2199, the years that a
/// date can fall in, and the day they give is a Sunday.
pub proof fn lemma_easter_computus_agree(y: int)
    requires
        1900 <= y < 2200,
    ensures
        easter_sunday(y) == easter_sunday_oudin(y),
        weekday_of_serial(easter_sunday_serial(y)) == Weekday::Sunday,
{
    if y < 1920 {
        lemma_easter_agrees_1900(y);
    } else if y < 1940 {
        lemma_easter_agrees_1920(y);
    } else if y < 1960 {
        lemma_easter_agrees_1940(y);
    } else if y < 1980 {
        lemma_easter_agrees_1960(y);
    } else if y < 2000 {
        lemma_easter_agrees_1980(y);
    } else if y < 2020 {
        lemma_easter_agrees_2000(y);
    } else if y < 2040 {
        lemma_easter_agrees_2020(y);
    } else if y < 2060 {
        lemma_easter_agrees_2040(y);
    } else if y < 2080 {
        lemma_easter_agrees_2060(y);
    } else if y < 2100 {
        lemma_easter_agrees_2080(y);
    } else if y < 2120 {
        lemma_easter_agrees_2100(y);
    } else if y < 2140 {
        lemma_easter_agrees_2120(y);
    } else if y < 2160 {
        lemma_easter_agrees_2140(y);
    } else if y < 2180 {
        lemma_easter_agrees_2160(y);
    } else if y < 2200 {
        lemma_easter_agrees_2180(y);
    }
}

} // verus!
