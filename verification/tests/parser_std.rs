use std::collections::HashMap;
use web_server_core::http_server::parser::parse_request;
use web_server_core::http_server::parser::ParseOutcome;
use web_server_core::http_server::HttpMethod;

#[derive(Debug, PartialEq)]
enum Reading {
    Incomplete,
    Failed,
    Complete {
        method: String,
        path: String,
        version: String,
        headers: HashMap<String, String>,
        body: Vec<u8>,
        consumed: usize,
    },
}

fn next_line(bytes: &[u8], from: usize) -> Option<(Result<String, ()>, usize)> {
    let end = from + bytes[from..].iter().position(|b| *b == b'\n')?;
    let mut line = &bytes[from..end];
    if line.last() == Some(&b'\r') {
        line = &line[..line.len() - 1];
    }
    Some((String::from_utf8(line.to_vec()).map_err(|_| ()), end + 1))
}

fn std_reading(bytes: &[u8]) -> Reading {
    let (request_line, mut at) = match next_line(bytes, 0) {
        None => return Reading::Incomplete,
        Some((Err(()), _)) => return Reading::Failed,
        Some((Ok(line), next)) => (line, next),
    };
    let parts: Vec<&str> = request_line.split_whitespace().collect();
    if parts.len() != 3 {
        return Reading::Failed;
    }
    let mut headers: HashMap<String, String> = HashMap::new();
    loop {
        let line = match next_line(bytes, at) {
            None => return Reading::Incomplete,
            Some((Err(()), _)) => return Reading::Failed,
            Some((Ok(line), next)) => {
                at = next;
                line
            }
        };
        if line.is_empty() {
            break;
        }
        let parts: Vec<&str> = line.splitn(2, ':').collect();
        if parts.len() != 2 {
            return Reading::Failed;
        }
        headers.insert(
            parts[0].trim().to_string().to_lowercase(),
            parts[1].trim().to_string().to_lowercase(),
        );
    }
    let mut body = Vec::new();
    if let Some(len) = headers.get("content-length") {
        let len: usize = match len.parse::<usize>() {
            Ok(len) => len,
            Err(_) => return Reading::Failed,
        };
        if bytes.len() - at < len {
            return Reading::Incomplete;
        }
        body.extend_from_slice(&bytes[at..at + len]);
    }
    let method = parts[0].to_uppercase();
    if method != "GET" && method != "POST" {
        return Reading::Failed;
    }
    Reading::Complete {
        method,
        path: parts[1].to_string(),
        version: parts[2].to_string(),
        headers,
        consumed: at + body.len(),
        body,
    }
}

fn observed(bytes: &[u8]) -> Reading {
    match parse_request(bytes) {
        ParseOutcome::Incomplete => Reading::Incomplete,
        ParseOutcome::Failed(_) => Reading::Failed,
        ParseOutcome::Complete(request, consumed) => {
            let mut headers = HashMap::new();
            for i in 0..request.headers.len() {
                headers.insert(request.headers.key(i).clone(), request.headers.value(i).clone());
            }
            assert_eq!(headers.len(), request.headers.len());
            Reading::Complete {
                method: match request.method {
                    HttpMethod::GET => "GET".to_string(),
                    HttpMethod::POST => "POST".to_string(),
                },
                path: request.path,
                version: request.http_version,
                headers,
                body: request.body,
                consumed,
            }
        }
    }
}

fn corpus() -> Vec<Vec<u8>> {
    let texts: [&[u8]; 24] = [
        b"",
        b"\n",
        b"\r\n\r\n",
        b"GET / HTTP/1.1\r\n\r\n",
        b"GET / HTTP/1.1\n\n",
        b"GET / HTTP/1.1\r\r\n\r\n",
        b"get /a/b?c=d HTTP/1.1\r\nHost: x\r\n\r\n",
        b"POST /login HTTP/1.1\r\nContent-Type: application/x-www-form-urlencoded\r\nContent-Length: 32\r\n\r\nusername=admin&password=hunter12 and more",
        b"POST / HTTP/1.1\r\nContent-Length: 3\r\nContent-Length: 5\r\n\r\nabcdefgh",
        b"POST / HTTP/1.1\r\ncontent-length : 2 \r\n\r\nab",
        b"POST / HTTP/1.1\r\nContent-Length: +2\r\n\r\nab",
        b"POST / HTTP/1.1\r\nContent-Length: 0x10\r\n\r\n",
        b"POST / HTTP/1.1\r\nContent-Length: 18446744073709551616\r\n\r\n",
        b"POST / HTTP/1.1\r\nContent-Length:\r\n\r\n",
        b"  GET\t/\x0bpath\x0c HTTP/1.1  \r\n\r\n",
        b"GET /a b HTTP/1.1\r\n\r\n",
        b"PUT / HTTP/1.1\r\n\r\n",
        b"GET / HTTP/1.1\r\n: empty name\r\n:\r\nA:b:c\r\n\r\n",
        b"GET / HTTP/1.1\r\nno colon\r\n\r\n",
        b"GET / HTTP/1.1\r\n \r\n\r\n",
        b"GET /\xc3\xa9 HTTP/1.1\r\nX-\xc3\x89: \xc3\x89\xc2\xa0\r\n\r\n",
        b"GET /\xff HTTP/1.1\r\n\r\n",
        b"GET / HTTP/1.1\r\nX: \xe2\x82\r\n\r\n",
        b"po\xc5\xbft /long-s HTTP/1.1\r\n\r\n",
    ];
    texts.iter().map(|t| t.to_vec()).collect()
}

#[test]
fn parser_agrees_with_a_reading_by_the_standard_library() {
    for bytes in corpus() {
        assert_eq!(observed(&bytes), std_reading(&bytes), "{:?}", String::from_utf8_lossy(&bytes));
    }
}

#[test]
fn parser_agrees_with_the_standard_library_on_every_prefix() {
    for bytes in corpus() {
        for k in 0..=bytes.len() {
            let prefix = &bytes[..k];
            assert_eq!(observed(prefix), std_reading(prefix), "{:?}", String::from_utf8_lossy(prefix));
        }
    }
}

#[test]
fn parser_answers_are_final() {
    for bytes in corpus() {
        let whole = observed(&bytes);
        for k in 0..=bytes.len() {
            let early = observed(&bytes[..k]);
            if early != Reading::Incomplete {
                assert_eq!(early, whole, "{:?} at {}", String::from_utf8_lossy(&bytes), k);
            }
        }
    }
}
