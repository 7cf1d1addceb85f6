//! The prompt renderer: builds the fixed bilingual troubleshooting
//! instruction around the language, the sanitized error output and the
//! executed code. The Korean template is selected by an exact match on one
//! recognized language token; every other value falls back to the English
//! template.

use vstd::prelude::*;

use crate::chars::str_eq_chars;

verus! {

/// Korean template up to the interpolated error output.
pub const KOR_HEAD: &'static str = r#"Jupyter Notebook (.ipynb) 파일을 실행하는 중 다음 오류가 발생했습니다. 초보 사용자도 이해할 수 있도록 문제 해결을 도와주세요.

          ---

          **오류 메시지:**

          "#;

/// Korean template between the error output and the code.
pub const KOR_MID: &'static str = r#"

          ---

          **실행 코드:**

          "#;

/// Korean template after the interpolated code.
pub const KOR_TAIL: &'static str = r#"

          ---

          **1. 오류 메시지에서 에러 유형(예: NameError, TypeError, SyntaxError 등)을 확인하고, 어떤 부분에서 오류가 발생했는지 구체적으로 설명해주세요.** (예: "NameError: 'my_variable' is not defined" 오류는 'my_variable'이라는 변수가 정의되지 않았다는 의미입니다.)

          **2. 오류가 발생한 코드 줄을 찾고, 해당 코드에 어떤 문제가 있는지 설명해주세요.** (예: 오타, 잘못된 함수 사용, 들여쓰기 오류 등)

          **3. 오류를 해결하기 위한 단계별 해결 방법을 제시해주세요.** (예: 변수 정의, 함수 수정, 라이브러리 설치 등)

          **4. 필요하다면, 코드를 직접 수정하여 제시해주세요.**

          **5. 오류 해결에 추가적으로 필요한 정보가 있다면 구체적으로 요청해주세요.** (예: 사용 중인 Python 버전, 특정 라이브러리 버전 등)

          ---

          **출력 형식:**

          * **1. 오류 유형 및 발생 위치:** (구체적으로 설명)
          * **2. 문제점:** (코드의 문제점 설명)
          * **3. 해결 방법 1:** (단계별 설명)
          * **4. 해결 방법 2:** (필요시 추가)
          * **5. 추가 정보:** (필요시 구체적으로 요청)
              "#;

/// English template up to the interpolated error output.
pub const ENG_HEAD: &'static str = r#"The following error occurred while running a Jupyter Notebook (.ipynb) file. Please assist in troubleshooting this issue for a beginner user.

        ---

        **Error Message:**

        "#;

/// English template between the error output and the code.
pub const ENG_MID: &'static str = r#"

        ---

        **Executed Code:**

        "#;

/// English template after the interpolated code.
pub const ENG_TAIL: &'static str = r#"

        ---

        **1. Identify the error type (e.g., NameError, TypeError, SyntaxError) from the error message and explain specifically where the error occurred.** (e.g., "NameError: 'my_variable' is not defined" indicates that the variable 'my_variable' has not been defined.)

        **2. Locate the line of code where the error occurred and explain what is wrong with that line.** (e.g., typos, incorrect function usage, indentation errors.)

        **3. Provide step-by-step solutions to resolve the error.** (e.g., defining variables, correcting functions, installing libraries.)

        **4. If possible, provide the corrected code directly.**

        **5. If any additional information is needed to resolve the error, request it specifically.** (e.g., Python version being used, specific library versions.)

        ---

        **Output Format:**

        * **1. Error Type and Location:** (Explain specifically)
        * **2. Issue:** (Describe the problem in the code)
        * **3. Solution 1:** (Step-by-step explanation)
        * **4. Solution 2:** (If necessary)
        * **5. Additional Information:** (Request specifically if needed)
        "#;

/// The language token that selects the Korean template.
pub open spec fn korean_token() -> Seq<char> {
    "한국어"@
}

/// The Korean prompt: the fixed template with the error output and the code
/// interpolated verbatim.
pub open spec fn korean_prompt(error_output: Seq<char>, code: Seq<char>) -> Seq<char> {
    KOR_HEAD@ + error_output + KOR_MID@ + code + KOR_TAIL@
}

/// The English prompt: the fixed template with the error output and the code
/// interpolated verbatim.
pub open spec fn english_prompt(error_output: Seq<char>, code: Seq<char>) -> Seq<char> {
    ENG_HEAD@ + error_output + ENG_MID@ + code + ENG_TAIL@
}

/// What the renderer returns: a pure function of the three inputs.
pub open spec fn prompt_spec(language: Seq<char>, error_output: Seq<char>, code: Seq<char>) -> Seq<
    char,
> {
    if language == korean_token() {
        korean_prompt(error_output, code)
    } else {
        english_prompt(error_output, code)
    }
}

/// Renders the troubleshooting prompt for (language, error output, code).
pub fn get_prompt(language: &str, error_output: &str, code: &str) -> (r: String)
    ensures
        r@ == prompt_spec(language@, error_output@, code@),
{
    let mut s = String::new();
    if str_eq_chars(language, "한국어") {
        s.append(KOR_HEAD);
        s.append(error_output);
        s.append(KOR_MID);
        s.append(code);
        s.append(KOR_TAIL);
        proof {
            assert(s@ =~= korean_prompt(error_output@, code@));
        }
    } else {
        s.append(ENG_HEAD);
        s.append(error_output);
        s.append(ENG_MID);
        s.append(code);
        s.append(ENG_TAIL);
        proof {
            assert(s@ =~= english_prompt(error_output@, code@));
        }
    }
    s
}

/// Rendering is deterministic: equal inputs give the identical prompt.
pub proof fn lemma_prompt_deterministic(
    l1: Seq<char>,
    e1: Seq<char>,
    c1: Seq<char>,
    l2: Seq<char>,
    e2: Seq<char>,
    c2: Seq<char>,
)
    requires
        l1 == l2,
        e1 == e2,
        c1 == c2,
    ensures
        prompt_spec(l1, e1, c1) == prompt_spec(l2, e2, c2),
{
}

/// Exactly the Korean token selects the Korean template; every other value
/// falls back to the English template.
pub proof fn lemma_prompt_selects_template(l: Seq<char>, e: Seq<char>, c: Seq<char>)
    ensures
        l == korean_token() ==> prompt_spec(l, e, c) == korean_prompt(e, c),
        l != korean_token() ==> prompt_spec(l, e, c) == english_prompt(e, c),
{
}

/// The rendered prompt carries the error output and the code verbatim, as
/// contiguous substrings.
pub proof fn lemma_prompt_contains_inputs(l: Seq<char>, e: Seq<char>, c: Seq<char>)
    ensures
        exists|a: int|
            0 <= a && a + e.len() <= prompt_spec(l, e, c).len() && #[trigger] prompt_spec(
                l,
                e,
                c,
            ).subrange(a, a + e.len() as int) == e,
        exists|a: int|
            0 <= a && a + c.len() <= prompt_spec(l, e, c).len() && #[trigger] prompt_spec(
                l,
                e,
                c,
            ).subrange(a, a + c.len() as int) == c,
{
    let p = prompt_spec(l, e, c);
    if l == korean_token() {
        let a1 = KOR_HEAD@.len() as int;
        let a2 = a1 + e.len() + KOR_MID@.len();
        assert(p.subrange(a1, a1 + e.len() as int) =~= e);
        assert(p.subrange(a2, a2 + c.len() as int) =~= c);
        assert(0 <= a1 && a1 + e.len() <= p.len() && p.subrange(a1, a1 + e.len() as int) == e);
        assert(0 <= a2 && a2 + c.len() <= p.len() && p.subrange(a2, a2 + c.len() as int) == c);
    } else {
        let a1 = ENG_HEAD@.len() as int;
        let a2 = a1 + e.len() + ENG_MID@.len();
        assert(p.subrange(a1, a1 + e.len() as int) =~= e);
        assert(p.subrange(a2, a2 + c.len() as int) =~= c);
        assert(0 <= a1 && a1 + e.len() <= p.len() && p.subrange(a1, a1 + e.len() as int) == e);
        assert(0 <= a2 && a2 + c.len() <= p.len() && p.subrange(a2, a2 + c.len() as int) == c);
    }
}

} // verus!
